//! `/doctor`: the health of a workspace, and what can be mended.

use crate::config::CURRENT_CONFIG_VERSION;
use crate::text::{
    cat2, cat3, cat4, cat5, chars_of, contains, decimal, join, joined, lemma_holds_part,
    lemma_join_holds, lemma_starts_with_first, number, opt_text, same, starts_with, string_between,
    texts,
};
use vstd::prelude::*;

verus! {

/// A file or directory of a workspace's scaffold.
#[derive(Clone, Copy, PartialEq, Eq, Structural)]
pub struct ScaffoldItem {
    pub exists: bool,
    /// Whether it has been created now, where it was missing and was to be.
    pub created: bool,
}

/// What was found out about a workspace.
pub struct DoctorFacts {
    pub config_version: Option<u32>,
    pub soul: ScaffoldItem,
    pub context: ScaffoldItem,
    pub skills: ScaffoldItem,
    /// How many playbooks there are.
    pub playbooks: u64,
    /// The version of this program.
    pub version: String,
    /// The latest version that was released, where that could be found out.
    pub latest: Option<String>,
}

/// What is said about one thing, and whether it is an issue.
pub struct Finding {
    pub line: Seq<char>,
    pub issue: bool,
}

/// The ending of a plural.
pub open spec fn plural(n: int) -> Seq<char> {
    if n == 1 {
        seq![]
    } else {
        "s"@
    }
}

/// What is said about the version of the configuration.
pub open spec fn version_finding(version: Option<u32>) -> Finding {
    let current = decimal(CURRENT_CONFIG_VERSION as int);
    match version {
        Some(v) => if v == CURRENT_CONFIG_VERSION {
            Finding {
                line: "\u{2705} config_version: "@ + decimal(v as int) + " (current)"@,
                issue: false,
            }
        } else if v > CURRENT_CONFIG_VERSION {
            Finding {
                line: "\u{26a0}\u{fe0f}  config_version: "@ + decimal(v as int)
                    + " \u{2014} this binary only knows up to "@ + current
                    + ". You may need to update apiari."@,
                issue: true,
            }
        } else {
            Finding {
                line: "\u{26a0}\u{fe0f}  config_version: "@ + decimal(v as int)
                    + " \u{2014} current is "@ + current
                    + ". Review the changelog for what\u{2019}s new."@,
                issue: true,
            }
        },
        None => Finding {
            line: "\u{26a0}\u{fe0f}  config_version missing \u{2014} add `config_version = "@
                + current + "` to your workspace TOML"@,
            issue: true,
        },
    }
}

/// What is said about the file on the coordinator's personality.
pub open spec fn soul_finding(exists: bool) -> Finding {
    if exists {
        Finding { line: "\u{2705} .apiari/soul.md exists"@, issue: false }
    } else {
        Finding {
            line: "\u{26a0}\u{fe0f}  .apiari/soul.md not found \u{2014} create one to customize coordinator personality"@,
            issue: true,
        }
    }
}

/// What is said about the file on the project.
pub open spec fn context_finding(exists: bool) -> Finding {
    if exists {
        Finding { line: "\u{2705} .apiari/context.md exists"@, issue: false }
    } else {
        Finding {
            line: "\u{26a0}\u{fe0f}  .apiari/context.md not found \u{2014} create one to give the coordinator project context"@,
            issue: true,
        }
    }
}

/// What is said about the playbooks.
pub open spec fn skills_finding(exists: bool, playbooks: u64) -> Finding {
    if exists {
        Finding {
            line: "\u{2705} .apiari/skills/ exists ("@ + decimal(playbooks as int) + " playbook"@
                + plural(playbooks as int) + ")"@,
            issue: false,
        }
    } else {
        Finding {
            line: "\u{26a0}\u{fe0f}  .apiari/skills/ not found \u{2014} create it to add coordinator playbooks"@,
            issue: true,
        }
    }
}

/// A tag without the letter that it may start with.
pub open spec fn tag_version(tag: Seq<char>) -> Seq<char> {
    if tag.len() > 0 && tag[0] == 'v' {
        tag.skip(1)
    } else {
        tag
    }
}

/// What is said about the version of this program.
pub open spec fn release_finding(version: Seq<char>, latest: Option<Seq<char>>) -> Finding {
    match latest {
        Some(tag) => if tag_version(tag) == version {
            Finding { line: "\u{2705} apiari v"@ + version + " (latest)"@, issue: false }
        } else {
            Finding {
                line: "\u{26a0}\u{fe0f}  apiari v"@ + version + " \u{2014} latest is "@ + tag
                    + ". Run /update to upgrade."@,
                issue: true,
            }
        },
        None => Finding {
            line: "\u{2705} apiari v"@ + version + " (could not check latest)"@,
            issue: false,
        },
    }
}

/// One where something is so, else none.
pub open spec fn one_if(b: bool) -> int {
    if b {
        1
    } else {
        0
    }
}

/// How many issues were found.
pub open spec fn issue_count(f: DoctorFacts) -> int {
    one_if(version_finding(f.config_version).issue) + one_if(!f.soul.exists) + one_if(
        !f.context.exists,
    ) + one_if(!f.skills.exists) + one_if(release_finding(f.version@, opt_text(f.latest)).issue)
}

/// How many missing parts of the scaffold were created.
pub open spec fn created_count(f: DoctorFacts, fix: bool) -> int {
    one_if(fix && !f.soul.exists && f.soul.created) + one_if(
        fix && !f.context.exists && f.context.created,
    ) + one_if(fix && !f.skills.exists && f.skills.created)
}

/// What is said in the end.
pub open spec fn summary(issues: int, created: int, fix: bool) -> Seq<Seq<char>> {
    let left = issues - created;
    (if fix && created > 0 {
        seq!["\n\u{2705} Scaffolded "@ + decimal(created) + " missing file"@ + plural(created)
            + "."@]
    } else {
        seq![]
    }) + if left > 0 {
        seq!["\n"@ + decimal(left) + " issue"@ + plural(left) + (" remaining that "@ + (if left == 1 {
            "needs"@
        } else {
            "need"@
        }) + " manual attention."@)]
    } else if !fix && issues > 0 {
        seq!["\n"@ + decimal(issues) + " issue"@ + plural(issues)
            + " found. Run `/doctor --fix` to scaffold missing files."@]
    } else {
        seq![]
    }
}

/// The report on a workspace.
pub open spec fn report_of(name: Seq<char>, f: DoctorFacts, fix: bool) -> Seq<char> {
    join(
        seq![
            "apiari doctor \u{2014} workspace: "@ + name + "\n"@,
            version_finding(f.config_version).line,
            soul_finding(f.soul.exists).line,
            context_finding(f.context.exists).line,
            skills_finding(f.skills.exists, f.playbooks).line,
            release_finding(f.version@, opt_text(f.latest)).line,
        ] + summary(issue_count(f), created_count(f, fix), fix),
        "\n"@,
    )
}

fn plural_of(n: u64) -> (r: &'static str)
    ensures
        r@ == plural(n as int),
{
    if n == 1 {
        proof {
            reveal_strlit("");
            assert(""@ =~= Seq::<char>::empty());
        }
        ""
    } else {
        "s"
    }
}

fn version_line(version: Option<u32>) -> (r: (String, bool))
    ensures
        r.0@ == version_finding(version).line,
        r.1 == version_finding(version).issue,
{
    let current = number(CURRENT_CONFIG_VERSION as u64);
    match version {
        Some(v) => {
            let text = number(v as u64);
            if v == CURRENT_CONFIG_VERSION {
                (cat3("\u{2705} config_version: ", text.as_str(), " (current)"), false)
            } else if v > CURRENT_CONFIG_VERSION {
                (
                    cat5(
                        "\u{26a0}\u{fe0f}  config_version: ",
                        text.as_str(),
                        " \u{2014} this binary only knows up to ",
                        current.as_str(),
                        ". You may need to update apiari.",
                    ),
                    true,
                )
            } else {
                (
                    cat5(
                        "\u{26a0}\u{fe0f}  config_version: ",
                        text.as_str(),
                        " \u{2014} current is ",
                        current.as_str(),
                        ". Review the changelog for what\u{2019}s new.",
                    ),
                    true,
                )
            }
        },
        None => (
            cat3(
                "\u{26a0}\u{fe0f}  config_version missing \u{2014} add `config_version = ",
                current.as_str(),
                "` to your workspace TOML",
            ),
            true,
        ),
    }
}

fn release_line(version: &str, latest: &Option<String>) -> (r: (String, bool))
    ensures
        r.0@ == release_finding(version@, opt_text(*latest)).line,
        r.1 == release_finding(version@, opt_text(*latest)).issue,
{
    match latest {
        Some(tag) => {
            let v = chars_of(tag.as_str());
            let bare = if v.len() > 0 && v[0] == 'v' {
                proof {
                    assert(tag@.skip(1) =~= v@.subrange(1, v@.len() as int));
                }
                string_between(&v, 1, v.len())
            } else {
                tag.clone()
            };
            if same(bare.as_str(), version) {
                (cat3("\u{2705} apiari v", version, " (latest)"), false)
            } else {
                (
                    cat5(
                        "\u{26a0}\u{fe0f}  apiari v",
                        version,
                        " \u{2014} latest is ",
                        tag.as_str(),
                        ". Run /update to upgrade.",
                    ),
                    true,
                )
            }
        },
        None => (cat3("\u{2705} apiari v", version, " (could not check latest)"), false),
    }
}

fn add_line(lines: &mut Vec<String>, line: String)
    ensures
        texts(final(lines)@) == texts(old(lines)@).push(line@),
{
    proof {
        assert(texts(lines@.push(line)) =~= texts(lines@).push(line@));
    }
    lines.push(line);
}

fn add_summary(lines: &mut Vec<String>, issues: u64, created: u64, fix: bool)
    requires
        created <= issues,
    ensures
        texts(final(lines)@) == texts(old(lines)@) + summary(issues as int, created as int, fix),
{
    let ghost before = texts(lines@);
    if fix && created > 0 {
        let n = number(created);
        add_line(
            lines,
            cat5("\n\u{2705} Scaffolded ", n.as_str(), " missing file", plural_of(created), "."),
        );
    }
    let left: u64 = issues - created;
    if left > 0 {
        let n = number(left);
        let verb = if left == 1 {
            "needs"
        } else {
            "need"
        };
        let head = cat4("\n", n.as_str(), " issue", plural_of(left));
        let tail = cat3(" remaining that ", verb, " manual attention.");
        add_line(lines, cat2(head.as_str(), tail.as_str()));
    } else if !fix && issues > 0 {
        let n = number(issues);
        add_line(
            lines,
            cat5(
                "\n",
                n.as_str(),
                " issue",
                plural_of(issues),
                " found. Run `/doctor --fix` to scaffold missing files.",
            ),
        );
    }
    proof {
        assert(texts(lines@) =~= before + summary(issues as int, created as int, fix));
    }
}

fn bit(b: bool) -> (r: u64)
    ensures
        r == one_if(b),
{
    if b {
        1
    } else {
        0
    }
}

/// The report on a workspace. `fix` tells whether missing parts of the
/// scaffold were to be created.
pub fn run(workspace_name: &str, facts: &DoctorFacts, fix: bool) -> (r: String)
    ensures
        r@ == report_of(workspace_name@, *facts, fix),
{
    let mut lines: Vec<String> = Vec::new();
    proof {
        assert(texts(lines@) =~= seq![]);
    }
    add_line(&mut lines, cat3("apiari doctor \u{2014} workspace: ", workspace_name, "\n"));
    let (version, version_issue) = version_line(facts.config_version);
    add_line(&mut lines, version);
    let soul = if facts.soul.exists {
        "\u{2705} .apiari/soul.md exists"
    } else {
        "\u{26a0}\u{fe0f}  .apiari/soul.md not found \u{2014} create one to customize coordinator personality"
    };
    add_line(&mut lines, soul.to_owned());
    let context = if facts.context.exists {
        "\u{2705} .apiari/context.md exists"
    } else {
        "\u{26a0}\u{fe0f}  .apiari/context.md not found \u{2014} create one to give the coordinator project context"
    };
    add_line(&mut lines, context.to_owned());
    let skills = if facts.skills.exists {
        let n = number(facts.playbooks);
        cat5(
            "\u{2705} .apiari/skills/ exists (",
            n.as_str(),
            " playbook",
            plural_of(facts.playbooks),
            ")",
        )
    } else {
        "\u{26a0}\u{fe0f}  .apiari/skills/ not found \u{2014} create it to add coordinator playbooks".to_owned()
    };
    add_line(&mut lines, skills);
    let (release, release_issue) = release_line(facts.version.as_str(), &facts.latest);
    add_line(&mut lines, release);
    let issues: u64 = bit(version_issue) + bit(!facts.soul.exists) + bit(!facts.context.exists)
        + bit(!facts.skills.exists) + bit(release_issue);
    let created: u64 = bit(fix && !facts.soul.exists && facts.soul.created) + bit(
        fix && !facts.context.exists && facts.context.created,
    ) + bit(fix && !facts.skills.exists && facts.skills.created);
    let ghost head = texts(lines@);
    add_summary(&mut lines, issues, created, fix);
    proof {
        assert(head =~= seq![
            "apiari doctor \u{2014} workspace: "@ + workspace_name@ + "\n"@,
            version_finding(facts.config_version).line,
            soul_finding(facts.soul.exists).line,
            context_finding(facts.context.exists).line,
            skills_finding(facts.skills.exists, facts.playbooks).line,
            release_finding(facts.version@, opt_text(facts.latest)).line,
        ]);
    }
    joined(&lines, "\n")
}

/// Mending never finds more to create than is missing; without mending nothing
/// is created.
pub proof fn law_created_parts_were_missing(facts: DoctorFacts, fix: bool)
    ensures
        0 <= created_count(facts, fix) <= issue_count(facts),
        !fix ==> created_count(facts, fix) == 0,
{
}

/// What a new file on the coordinator's personality holds.
pub open spec fn soul_text() -> Seq<char> {
    "# Soul\n\nCommunication style and behavioral guidelines for the coordinator.\n"@
}

/// What a new file on the project holds.
pub open spec fn context_text() -> Seq<char> {
    "# Project Name\n\nWhat is this project? (1-2 sentences)\n\n## Stack\n\n## Team / ownership\n\n## Key conventions\n\n## Anything the coordinator should always know\n"@
}

/// What a new file on the coordinator's personality holds.
pub fn soul_template() -> (r: &'static str)
    ensures
        r@ == soul_text(),
{
    "# Soul\n\nCommunication style and behavioral guidelines for the coordinator.\n"
}

/// What a new file on the project holds.
pub fn context_template() -> (r: &'static str)
    ensures
        r@ == context_text(),
{
    "# Project Name\n\nWhat is this project? (1-2 sentences)\n\n## Stack\n\n## Team / ownership\n\n## Key conventions\n\n## Anything the coordinator should always know\n"
}

// ---------------------------------------------------------------------------
// Mending
// ---------------------------------------------------------------------------

/// A part of a workspace's scaffold.
#[derive(Debug, Clone, Copy, PartialEq, Eq, Structural)]
pub enum ScaffoldPart {
    Soul,
    Context,
    Skills,
}

/// What a workspace's scaffold holds: the two files with their contents, and
/// whether there is a directory for playbooks.
pub struct Scaffold {
    pub soul: Option<Seq<char>>,
    pub context: Option<Seq<char>>,
    pub skills: bool,
}

/// A part where something is missing and is to be created, else nothing.
pub open spec fn part_if(wanted: bool, part: ScaffoldPart) -> Seq<ScaffoldPart> {
    if wanted {
        seq![part]
    } else {
        seq![]
    }
}

/// The parts that are to be created: those that are missing, where the
/// workspace is to be mended.
pub open spec fn parts_missing(soul: bool, context: bool, skills: bool, fix: bool) -> Seq<
    ScaffoldPart,
> {
    part_if(fix && !soul, ScaffoldPart::Soul) + part_if(fix && !context, ScaffoldPart::Context)
        + part_if(fix && !skills, ScaffoldPart::Skills)
}

/// The parts that are to be created, given which of them exist.
pub fn parts_to_create(soul: bool, context: bool, skills: bool, fix: bool) -> (r: Vec<ScaffoldPart>)
    ensures
        r@ == parts_missing(soul, context, skills, fix),
{
    let mut out: Vec<ScaffoldPart> = Vec::new();
    if fix && !soul {
        out.push(ScaffoldPart::Soul);
    }
    if fix && !context {
        out.push(ScaffoldPart::Context);
    }
    if fix && !skills {
        out.push(ScaffoldPart::Skills);
    }
    proof {
        assert(out@ =~= parts_missing(soul, context, skills, fix));
    }
    out
}

/// A scaffold after a part has been created; what is there already is left as
/// it is.
pub open spec fn with_part(disk: Scaffold, part: ScaffoldPart) -> Scaffold {
    match part {
        ScaffoldPart::Soul => if disk.soul is Some {
            disk
        } else {
            Scaffold { soul: Some(soul_text()), ..disk }
        },
        ScaffoldPart::Context => if disk.context is Some {
            disk
        } else {
            Scaffold { context: Some(context_text()), ..disk }
        },
        ScaffoldPart::Skills => Scaffold { skills: true, ..disk },
    }
}

/// A scaffold after parts have been created.
pub open spec fn with_parts(disk: Scaffold, parts: Seq<ScaffoldPart>) -> Scaffold
    decreases parts.len(),
{
    if parts.len() == 0 {
        disk
    } else {
        with_part(with_parts(disk, parts.drop_last()), parts.last())
    }
}

/// A scaffold after a run of the doctor on a workspace that can be written to.
pub open spec fn mended(disk: Scaffold, fix: bool) -> Scaffold {
    with_parts(
        disk,
        parts_missing(disk.soul is Some, disk.context is Some, disk.skills, fix),
    )
}

/// Whether facts are those of a run of the doctor on a workspace that can be
/// written to: which parts exist, and that those which are missing are created
/// where it is to be mended.
pub open spec fn describes(facts: DoctorFacts, disk: Scaffold, fix: bool) -> bool {
    &&& facts.soul == (ScaffoldItem {
        exists: disk.soul is Some,
        created: fix && disk.soul is None,
    })
    &&& facts.context == (ScaffoldItem {
        exists: disk.context is Some,
        created: fix && disk.context is None,
    })
    &&& facts.skills == (ScaffoldItem { exists: disk.skills, created: fix && !disk.skills })
}

/// Whether the report says that something was created.
pub open spec fn says_scaffolded(facts: DoctorFacts, fix: bool) -> bool {
    let lines = summary(issue_count(facts), created_count(facts, fix), fix);
    exists|i: int|
        0 <= i < lines.len() && starts_with(#[trigger] lines[i], "\n\u{2705} Scaffolded "@)
}

proof fn lemma_with_parts_push(disk: Scaffold, parts: Seq<ScaffoldPart>, part: ScaffoldPart)
    ensures
        with_parts(disk, parts.push(part)) == with_part(with_parts(disk, parts), part),
{
    assert(parts.push(part).drop_last() =~= parts);
}

proof fn lemma_mended(disk: Scaffold, fix: bool)
    ensures
        mended(disk, fix) == if fix {
            Scaffold {
                soul: Some(
                    match disk.soul {
                        Some(s) => s,
                        None => soul_text(),
                    },
                ),
                context: Some(
                    match disk.context {
                        Some(s) => s,
                        None => context_text(),
                    },
                ),
                skills: true,
            }
        } else {
            disk
        },
{
    let a = part_if(fix && disk.soul is None, ScaffoldPart::Soul);
    let b = part_if(fix && disk.context is None, ScaffoldPart::Context);
    let c = part_if(fix && !disk.skills, ScaffoldPart::Skills);
    let none: Seq<ScaffoldPart> = seq![];
    assert(with_parts(disk, none) == disk);
    if a.len() > 0 {
        lemma_with_parts_push(disk, none, ScaffoldPart::Soul);
        assert(none.push(ScaffoldPart::Soul) =~= a);
    } else {
        assert(a =~= none);
    }
    if b.len() > 0 {
        lemma_with_parts_push(disk, a, ScaffoldPart::Context);
        assert(a.push(ScaffoldPart::Context) =~= a + b);
    } else {
        assert(a + b =~= a);
    }
    if c.len() > 0 {
        lemma_with_parts_push(disk, a + b, ScaffoldPart::Skills);
        assert((a + b).push(ScaffoldPart::Skills) =~= a + b + c);
    } else {
        assert(a + b + c =~= a + b);
    }
}

proof fn lemma_says_scaffolded(facts: DoctorFacts, fix: bool)
    requires
        0 <= created_count(facts, fix) <= issue_count(facts),
    ensures
        says_scaffolded(facts, fix) == (fix && created_count(facts, fix) > 0),
{
    let issues = issue_count(facts);
    let made = created_count(facts, fix);
    let left = issues - made;
    let lines = summary(issues, made, fix);
    let start = "\n\u{2705} Scaffolded "@;
    reveal_strlit("\n\u{2705} Scaffolded ");
    reveal_strlit("\n");
    if fix && made > 0 {
        let line = start + decimal(made) + " missing file"@ + plural(made) + "."@;
        assert(lines[0] == line);
        assert(line.subrange(0, start.len() as int) =~= start);
        assert(starts_with(lines[0], start));
    } else {
        assert forall|i: int| 0 <= i < lines.len() implies !starts_with(
            #[trigger] lines[i],
            start,
        ) by {
            let n = if left > 0 {
                left
            } else {
                issues
            };
            crate::text::lemma_digits_spell(n as nat);
            let digits = decimal(n);
            assert(crate::text::is_digit(digits[0]));
            assert(lines[i][1] == digits[0]);
            if starts_with(lines[i], start) {
                assert(lines[i].subrange(0, start.len() as int)[1] == start[1]);
            }
        }
    }
}

/// Mending never changes a file that is there; without mending nothing
/// changes; mending leaves all parts there and says that it created something
/// exactly where a part was missing, so a second mending does not say it.
pub proof fn law_mending(disk: Scaffold, fix: bool, facts: DoctorFacts, again: DoctorFacts)
    requires
        describes(facts, disk, fix),
        describes(again, mended(disk, fix), true),
    ensures
        disk.soul is Some ==> mended(disk, fix).soul == disk.soul,
        disk.context is Some ==> mended(disk, fix).context == disk.context,
        !fix ==> mended(disk, fix) == disk,
        fix ==> {
            &&& mended(disk, fix).soul is Some
            &&& mended(disk, fix).context is Some
            &&& mended(disk, fix).skills
        },
        says_scaffolded(facts, fix) == (fix && (disk.soul is None || disk.context is None
            || !disk.skills)),
        fix ==> !says_scaffolded(again, true),
{
    lemma_mended(disk, fix);
    lemma_says_scaffolded(facts, fix);
    lemma_says_scaffolded(again, true);
}

/// The configuration is fine exactly where its version is the current one; else
/// there is an issue, and the line tells the version that was found.
pub proof fn law_current_version_is_fine(version: Option<u32>)
    ensures
        version_finding(version).issue <==> version != Some(CURRENT_CONFIG_VERSION),
        version is Some ==> contains(version_finding(version).line, decimal(version->0 as int)),
        version != Some(CURRENT_CONFIG_VERSION) ==> contains(
            version_finding(version).line,
            decimal(CURRENT_CONFIG_VERSION as int),
        ),
{
    let line = version_finding(version).line;
    let current = decimal(CURRENT_CONFIG_VERSION as int);
    match version {
        Some(v) => {
            let d = decimal(v as int);
            if v == CURRENT_CONFIG_VERSION {
                lemma_holds_part("\u{2705} config_version: "@, d, " (current)"@);
            } else {
                let head = "\u{26a0}\u{fe0f}  config_version: "@;
                if v > CURRENT_CONFIG_VERSION {
                    let a = " \u{2014} this binary only knows up to "@;
                    let b = ". You may need to update apiari."@;
                    assert(line =~= head + d + (a + current + b));
                    lemma_holds_part(head, d, a + current + b);
                    lemma_holds_part(head + d + a, current, b);
                } else {
                    let a = " \u{2014} current is "@;
                    let b = ". Review the changelog for what\u{2019}s new."@;
                    assert(line =~= head + d + (a + current + b));
                    lemma_holds_part(head, d, a + current + b);
                    lemma_holds_part(head + d + a, current, b);
                }
            }
        },
        None => {
            lemma_holds_part(
                "\u{26a0}\u{fe0f}  config_version missing \u{2014} add `config_version = "@,
                current,
                "` to your workspace TOML"@,
            );
        },
    }
}

/// A part of the scaffold is an issue exactly where it is missing.
pub proof fn law_missing_parts_are_issues(exists: bool, playbooks: u64)
    ensures
        soul_finding(exists).issue <==> !exists,
        context_finding(exists).issue <==> !exists,
        skills_finding(exists, playbooks).issue <==> !exists,
        exists ==> contains(skills_finding(exists, playbooks).line, decimal(playbooks as int)),
{
    if exists {
        let a = "\u{2705} .apiari/skills/ exists ("@;
        let d = decimal(playbooks as int);
        let b = " playbook"@ + plural(playbooks as int) + ")"@;
        assert(skills_finding(exists, playbooks).line =~= a + d + b);
        lemma_holds_part(a, d, b);
    }
}

/// A release is an issue exactly where a newest one is known and it is another
/// than the one that runs; a tag may put a `v` before the version.
pub proof fn law_other_release_is_an_issue(version: Seq<char>, tag: Seq<char>)
    ensures
        !release_finding(version, None).issue,
        !release_finding(version, Some("v"@ + version)).issue,
        tag.len() > 0 && tag[0] != 'v' ==> (release_finding(version, Some(tag)).issue <==> tag
            != version),
        tag.len() > 0 && tag[0] == 'v' ==> (release_finding(version, Some(tag)).issue <==> tag
            != "v"@ + version),
        release_finding(version, Some(tag)).issue ==> contains(
            release_finding(version, Some(tag)).line,
            tag,
        ),
{
    reveal_strlit("v");
    let w = "v"@ + version;
    assert(w.skip(1) =~= version);
    if tag.len() > 0 && tag[0] == 'v' {
        assert(tag =~= "v"@ + tag.skip(1));
    }
    if release_finding(version, Some(tag)).issue {
        lemma_holds_part(
            "\u{26a0}\u{fe0f}  apiari v"@ + version + " \u{2014} latest is "@,
            tag,
            ". Run /update to upgrade."@,
        );
    }
}

/// The issues are counted one by one: the version of the configuration, each
/// missing part, and the release.
pub proof fn law_every_issue_counts(f: DoctorFacts)
    ensures
        0 <= issue_count(f) <= 5,
        issue_count(f) == 0 <==> f.config_version == Some(CURRENT_CONFIG_VERSION) && f.soul.exists
            && f.context.exists && f.skills.exists && !release_finding(
            f.version@,
            opt_text(f.latest),
        ).issue,
        f.config_version != Some(CURRENT_CONFIG_VERSION) && !f.soul.exists && !f.context.exists
            && !f.skills.exists ==> issue_count(f) >= 4,
{
}

/// What was mended is told, and so is what is left to do by hand; a report
/// without issues ends without either.
pub proof fn law_summary_tells_what_is_left(issues: int, created: int, fix: bool)
    requires
        0 <= created <= issues,
        !fix ==> created == 0,
    ensures
        issues == 0 ==> summary(issues, created, fix).len() == 0,
        created > 0 ==> summary(issues, created, fix).len() > 0 && starts_with(
            summary(issues, created, fix)[0],
            "\n\u{2705} Scaffolded "@ + decimal(created) + " missing file"@,
        ),
        issues > created ==> summary(issues, created, fix).len() > 0 && starts_with(
            summary(issues, created, fix).last(),
            "\n"@ + decimal(issues - created) + " issue"@,
        ),
        created == issues && created > 0 ==> summary(issues, created, fix).len() == 1,
        plural(1) == Seq::<char>::empty(),
        issues != 1 ==> plural(issues) == "s"@,
{
    let all = summary(issues, created, fix);
    if created > 0 {
        let x = "\n\u{2705} Scaffolded "@ + decimal(created) + " missing file"@;
        assert(all[0].subrange(0, x.len() as int) =~= x);
    }
    if issues > created {
        let y = "\n"@ + decimal(issues - created) + " issue"@;
        assert(all.last().subrange(0, y.len() as int) =~= y);
    }
}

/// A report names the workspace and holds the line of every finding.
pub proof fn law_report_holds_every_finding(name: Seq<char>, f: DoctorFacts, fix: bool)
    ensures
        starts_with(report_of(name, f, fix), "apiari doctor \u{2014} workspace: "@ + name + "\n"@),
        contains(report_of(name, f, fix), version_finding(f.config_version).line),
        contains(report_of(name, f, fix), soul_finding(f.soul.exists).line),
        contains(report_of(name, f, fix), context_finding(f.context.exists).line),
        contains(report_of(name, f, fix), skills_finding(f.skills.exists, f.playbooks).line),
        contains(
            report_of(name, f, fix),
            release_finding(f.version@, opt_text(f.latest)).line,
        ),
        forall|i: int|
            0 <= i < summary(issue_count(f), created_count(f, fix), fix).len() ==> contains(
                report_of(name, f, fix),
                #[trigger] summary(issue_count(f), created_count(f, fix), fix)[i],
            ),
{
    let s = summary(issue_count(f), created_count(f, fix), fix);
    let a = seq![
        "apiari doctor \u{2014} workspace: "@ + name + "\n"@,
        version_finding(f.config_version).line,
        soul_finding(f.soul.exists).line,
        context_finding(f.context.exists).line,
        skills_finding(f.skills.exists, f.playbooks).line,
        release_finding(f.version@, opt_text(f.latest)).line,
    ];
    let all = a + s;
    assert(report_of(name, f, fix) == join(all, "\n"@));
    lemma_starts_with_first(all, "\n"@);
    assert(all[0] == a[0] && all[1] == a[1] && all[2] == a[2] && all[3] == a[3] && all[4] == a[4]
        && all[5] == a[5]);
    lemma_join_holds(all, "\n"@, 1);
    lemma_join_holds(all, "\n"@, 2);
    lemma_join_holds(all, "\n"@, 3);
    lemma_join_holds(all, "\n"@, 4);
    lemma_join_holds(all, "\n"@, 5);
    assert forall|i: int| 0 <= i < s.len() implies contains(
        report_of(name, f, fix),
        #[trigger] s[i],
    ) by {
        assert(all[6 + i] == s[i]);
        lemma_join_holds(all, "\n"@, 6 + i);
    }
}

/// With a fix exactly the missing parts are made, and none without one.
pub proof fn law_missing_parts_are_made(soul: bool, context: bool, skills: bool)
    ensures
        parts_missing(soul, context, skills, false).len() == 0,
        parts_missing(soul, context, skills, true).contains(ScaffoldPart::Soul) <==> !soul,
        parts_missing(soul, context, skills, true).contains(ScaffoldPart::Context) <==> !context,
        parts_missing(soul, context, skills, true).contains(ScaffoldPart::Skills) <==> !skills,
{
    let a = part_if(!soul, ScaffoldPart::Soul);
    let b = part_if(!context, ScaffoldPart::Context);
    let c = part_if(!skills, ScaffoldPart::Skills);
    let all = parts_missing(soul, context, skills, true);
    assert(all == a + b + c);
    if !soul {
        assert(all[0] == ScaffoldPart::Soul);
    }
    if !context {
        assert(all[a.len() as int] == ScaffoldPart::Context);
    }
    if !skills {
        assert(all[(a + b).len() as int] == ScaffoldPart::Skills);
    }
}

} // verus!
