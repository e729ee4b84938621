//! The log of a worker's events: one JSON value per line, and what the web
//! interface shows of it.

use crate::conversations::last_of;
use crate::json::{
    compact, field, lemma_field_is, members_of, object, optional_text, parse, parsed, render,
    stored, text, text_field, text_or_null, trees, Json, Tree,
};
use crate::text::{
    blank, byte_len, can_clip, cat2, cat3, cat5, clip, clipped, clips_evenly, first_chars, lines,
    lines_of, longer_than, opt_text, same, start_of, texts, trim,
};
use crate::time::Moment;
use vstd::prelude::*;

verus! {

// ---------------------------------------------------------------------------
// Events as the details of a worker show them
// ---------------------------------------------------------------------------

/// The input of a tool: as text, and as an object where the text is one.
pub struct ToolInput {
    pub raw: String,
    pub object: Option<Json>,
}

/// The text under a key of an event, or nothing.
pub open spec fn event_text(event: Tree, key: Seq<char>) -> Seq<char> {
    match text_field(event, key) {
        Some(s) => s,
        None => seq![],
    }
}

/// An event with nothing but a text and a time.
pub open spec fn plain_event(kind: Seq<char>, content: Seq<char>, created_at: Seq<char>) -> Tree {
    Tree::Object(
        seq![
            ("event_type"@, Tree::Text(kind)),
            ("content"@, Tree::Text(content)),
            ("created_at"@, Tree::Text(created_at)),
        ],
    )
}

/// The text of a user's message: under either of two keys.
pub open spec fn user_text(event: Tree) -> Seq<char> {
    match field(event, "text"@) {
        Some(v) => match v {
            Tree::Text(s) => s,
            _ => seq![],
        },
        None => event_text(event, "message"@),
    }
}

/// The name of the tool of an event.
pub open spec fn tool_name(event: Tree, otherwise: Seq<char>) -> Seq<char> {
    match text_field(event, "tool"@) {
        Some(s) => s,
        None => otherwise,
    }
}

/// An event as the details of a worker show it. Events without a type, of
/// another type, or of a text without one are left out.
pub open spec fn shown_event(event: Tree, raw: Seq<char>, input: Option<Tree>) -> Option<Tree> {
    let at = event_text(event, "timestamp"@);
    match text_field(event, "type"@) {
        None => None,
        Some(kind) => if kind == "assistant_text"@ {
            match text_field(event, "text"@) {
                Some(s) => Some(plain_event("assistant_text"@, s, at)),
                None => None,
            }
        } else if kind == "tool_use"@ {
            let tool = tool_name(event, "unknown"@);
            Some(
                Tree::Object(
                    seq![
                        ("event_type"@, Tree::Text("tool_use"@)),
                        ("tool"@, Tree::Text(tool)),
                        (
                            "input"@,
                            match input {
                                Some(v) => v,
                                None => Tree::Null,
                            },
                        ),
                        ("input_raw"@, Tree::Text(raw)),
                        ("content"@, Tree::Text(tool + ": "@ + raw)),
                        ("created_at"@, Tree::Text(at)),
                    ],
                ),
            )
        } else if kind == "user_message"@ {
            Some(plain_event("user_message"@, user_text(event), at))
        } else if kind == "system"@ {
            Some(plain_event("system"@, event_text(event, "text"@), at))
        } else if kind == "session_result"@ {
            let session = text_field(event, "session_id"@);
            Some(
                Tree::Object(
                    seq![
                        ("event_type"@, Tree::Text("session_result"@)),
                        (
                            "content"@,
                            Tree::Text(
                                match session {
                                    Some(s) => s,
                                    None => seq![],
                                },
                            ),
                        ),
                        ("session_id"@, text_or_null(session)),
                        ("created_at"@, Tree::Text(at)),
                    ],
                ),
            )
        } else if kind == "start"@ {
            Some(plain_event("session_start"@, seq![], at))
        } else {
            None
        },
    }
}

/// The input of the tool of an event, as text: a text as it is, anything else
/// as it is printed.
pub open spec fn raw_input(event: Tree) -> Seq<char> {
    match field(event, "input"@) {
        Some(Tree::Text(s)) => s,
        Some(other) => compact(stored(other)),
        None => seq![],
    }
}

/// The object that the text of an input spells.
pub open spec fn object_input(raw: Seq<char>) -> Option<Tree> {
    match parsed(raw) {
        Some(Tree::Object(members)) => Some(Tree::Object(members)),
        _ => None,
    }
}

/// An event as the details of a worker show it.
pub open spec fn event_shown(event: Tree) -> Option<Tree> {
    shown_event(event, raw_input(event), object_input(raw_input(event)))
}

/// The events of a log that are shown, line by line; lines that are not JSON
/// are left out.
pub open spec fn events_shown(list: Seq<Seq<char>>) -> Seq<Tree>
    decreases list.len(),
{
    if list.len() == 0 {
        seq![]
    } else {
        let rest = events_shown(list.drop_last());
        match parsed(list.last()) {
            Some(event) => match event_shown(event) {
                Some(t) => rest.push(t),
                None => rest,
            },
            None => rest,
        }
    }
}

fn text_or_empty(event: &Json, key: &str) -> (r: String)
    ensures
        r@ == event_text(event.tree(), key@),
{
    match event.text_field(key) {
        Some(s) => s,
        None => String::new(),
    }
}

fn plain(kind: &str, content: &str, created_at: &str) -> (r: Json)
    ensures
        r.tree() == plain_event(kind@, content@, created_at@),
{
    let r = object().with("event_type", text(kind)).with("content", text(content)).with(
        "created_at",
        text(created_at),
    );
    proof {
        assert(members_of(r.tree()) =~= plain_event(kind@, content@, created_at@)->Object_0);
    }
    r
}

fn find_user_text(event: &Json) -> (r: String)
    ensures
        r@ == user_text(event.tree()),
{
    match event.get("text") {
        Some(v) => match v.as_text() {
            Some(s) => s.clone(),
            None => String::new(),
        },
        None => text_or_empty(event, "message"),
    }
}

/// An event as the details of a worker show it, given the input of its tool.
pub fn show_event(event: &Json, input: &ToolInput) -> (r: Option<Json>)
    ensures
        crate::json::opt_tree(r) == shown_event(
            event.tree(),
            input.raw@,
            crate::json::opt_tree(input.object),
        ),
{
    let at = text_or_empty(event, "timestamp");
    let kind = match event.text_field("type") {
        Some(k) => k,
        None => {
            return None;
        },
    };
    if same(kind.as_str(), "assistant_text") {
        match event.text_field("text") {
            Some(s) => Some(plain("assistant_text", s.as_str(), at.as_str())),
            None => None,
        }
    } else if same(kind.as_str(), "tool_use") {
        let tool = match event.text_field("tool") {
            Some(s) => s,
            None => "unknown".to_owned(),
        };
        let value = match &input.object {
            Some(v) => v.copy(),
            None => Json::Null,
        };
        let content = cat3(tool.as_str(), ": ", input.raw.as_str());
        let r = object().with("event_type", text("tool_use")).with(
            "tool",
            text(tool.as_str()),
        ).with("input", value).with("input_raw", text(input.raw.as_str())).with(
            "content",
            Json::Text(content),
        ).with("created_at", text(at.as_str()));
        proof {
            let expected = shown_event(
                event.tree(),
                input.raw@,
                crate::json::opt_tree(input.object),
            )->0->Object_0;
            assert(members_of(r.tree()) =~= expected);
        }
        Some(r)
    } else if same(kind.as_str(), "user_message") {
        let content = find_user_text(event);
        Some(plain("user_message", content.as_str(), at.as_str()))
    } else if same(kind.as_str(), "system") {
        let content = text_or_empty(event, "text");
        Some(plain("system", content.as_str(), at.as_str()))
    } else if same(kind.as_str(), "session_result") {
        let session = event.text_field("session_id");
        let content = match &session {
            Some(s) => s.clone(),
            None => String::new(),
        };
        let r = object().with("event_type", text("session_result")).with(
            "content",
            Json::Text(content),
        ).with("session_id", optional_text(&session)).with("created_at", text(at.as_str()));
        proof {
            let expected = shown_event(
                event.tree(),
                input.raw@,
                crate::json::opt_tree(input.object),
            )->0->Object_0;
            assert(members_of(r.tree()) =~= expected);
        }
        Some(r)
    } else if same(kind.as_str(), "start") {
        proof {
            reveal_strlit("");
            assert(""@ =~= Seq::<char>::empty());
        }
        Some(plain("session_start", "", at.as_str()))
    } else {
        None
    }
}

fn input_of(event: &Json) -> (r: ToolInput)
    ensures
        r.raw@ == raw_input(event.tree()),
        crate::json::opt_tree(r.object) == object_input(raw_input(event.tree())),
{
    let raw = match event.get("input") {
        Some(v) => match v {
            Json::Text(s) => s.clone(),
            other => render(other),
        },
        None => String::new(),
    };
    let object = match parse(raw.as_str()) {
        Some(v) => match v {
            Json::Object(members) => Some(Json::Object(members)),
            _ => None,
        },
        None => None,
    };
    ToolInput { raw, object }
}

/// The events of a worker's log as the details of the worker show them.
pub fn read_worker_events(log: &str) -> (r: Vec<Json>)
    ensures
        trees(r@) == events_shown(lines(log@)),
{
    let list = lines_of(log);
    let ghost all = texts(list@);
    let n: usize = list.len();
    let mut out: Vec<Json> = Vec::new();
    let mut i: usize = 0;
    proof {
        assert(trees(out@) =~= events_shown(all.take(0)));
    }
    while i < n
        invariant
            n == list@.len(),
            all == texts(list@),
            0 <= i <= n,
            trees(out@) == events_shown(all.take(i as int)),
        decreases n - i,
    {
        proof {
            assert(all.take(i + 1).drop_last() =~= all.take(i as int));
            assert(all.take(i + 1).last() == list@[i as int]@);
        }
        if let Some(event) = parse(list[i].as_str()) {
            let input = input_of(&event);
            if let Some(shown) = show_event(&event, &input) {
                proof {
                    assert(trees(out@.push(shown)) =~= trees(out@).push(shown.tree()));
                }
                out.push(shown);
            }
        }
        i = i + 1;
    }
    proof {
        assert(all.take(n as int) =~= all);
    }
    out
}

// ---------------------------------------------------------------------------
// Activity
// ---------------------------------------------------------------------------

/// An entry of a worker's activity.
pub struct WorkerActivityEntry {
    pub role: String,
    pub text: String,
}

/// What an entry of a worker's activity says.
pub struct Activity {
    pub role: Seq<char>,
    pub text: Seq<char>,
}

impl View for WorkerActivityEntry {
    type V = Activity;

    open spec fn view(&self) -> Activity {
        Activity { role: self.role@, text: self.text@ }
    }
}

/// What the entries of a list say.
pub open spec fn activities(list: Seq<WorkerActivityEntry>) -> Seq<Activity> {
    list.map_values(|e: WorkerActivityEntry| e@)
}

/// How many bytes of a tool's input are shown.
pub const SHOWN_INPUT: usize = 200;

/// How many entries of a worker's activity are shown.
pub const SHOWN_ENTRIES: usize = 50;

/// The input of a tool as it is shown: its first two hundred bytes.
pub open spec fn input_preview(input: Seq<char>) -> Seq<char> {
    if byte_len(input) > 200 {
        clip(input, 200) + "…"@
    } else {
        input
    }
}

/// Whether an input can be cut to its first two hundred bytes.
pub open spec fn input_fits(input: Seq<char>) -> bool {
    byte_len(input) > 200 ==> clips_evenly(input, 200)
}

/// The activity that an event shows, given the text that its tool's input is
/// printed as.
pub open spec fn activity_of(event: Tree, input: Seq<char>) -> Option<Activity> {
    let kind = event_text(event, "type"@);
    if kind == "start"@ {
        match text_field(event, "prompt"@) {
            Some(prompt) => Some(
                Activity { role: "user"@, text: first_chars(prompt, 200) + "…"@ },
            ),
            None => None,
        }
    } else if kind == "user_message"@ || kind == "assistant_text"@ {
        match text_field(event, "text"@) {
            Some(s) => if trim(s).len() > 0 {
                Some(
                    Activity {
                        role: if kind == "user_message"@ {
                            "user"@
                        } else {
                            "assistant"@
                        },
                        text: s,
                    },
                )
            } else {
                None
            },
            None => None,
        }
    } else if kind == "tool_use"@ {
        Some(
            Activity {
                role: "tool"@,
                text: "**"@ + tool_name(event, "tool"@) + "** `"@ + input_preview(input) + "`"@,
            },
        )
    } else {
        None
    }
}

/// The text that the input of an event's tool is printed as.
pub open spec fn printed_input(event: Tree) -> Seq<char> {
    match field(event, "input"@) {
        Some(v) => compact(stored(v)),
        None => seq![],
    }
}

/// Whether what an event shows can be cut.
pub open spec fn event_can_be_cut(event: Tree) -> bool {
    event_text(event, "type"@) == "tool_use"@ ==> input_fits(printed_input(event))
}

/// The activity that the lines of a log show.
pub open spec fn activity_in(list: Seq<Seq<char>>) -> Seq<Activity>
    decreases list.len(),
{
    if list.len() == 0 {
        seq![]
    } else {
        let rest = activity_in(list.drop_last());
        match parsed(list.last()) {
            Some(event) => match activity_of(event, printed_input(event)) {
                Some(a) => rest.push(a),
                None => rest,
            },
            None => rest,
        }
    }
}

/// Whether what all the lines of a log show can be cut.
pub open spec fn lines_can_be_cut(list: Seq<Seq<char>>) -> bool {
    forall|i: int|
        0 <= i < list.len() && parsed(#[trigger] list[i]) is Some ==> event_can_be_cut(
            parsed(list[i])->0,
        )
}

fn entry(role: &str, s: &str) -> (r: WorkerActivityEntry)
    ensures
        r@ == (Activity { role: role@, text: s@ }),
{
    WorkerActivityEntry { role: role.to_owned(), text: s.to_owned() }
}

/// The activity that an event shows, given the text that its tool's input is
/// printed as.
pub fn show_activity(event: &Json, input: &str) -> (r: Option<WorkerActivityEntry>)
    requires
        event_text(event.tree(), "type"@) == "tool_use"@ ==> input_fits(input@),
    ensures
        match activity_of(event.tree(), input@) {
            Some(a) => r is Some && r->0@ == a,
            None => r is None,
        },
{
    let kind = text_or_empty(event, "type");
    if same(kind.as_str(), "start") {
        match event.text_field("prompt") {
            Some(prompt) => {
                let start = start_of(prompt.as_str(), 200);
                let shown = cat2(start.as_str(), "…");
                Some(entry("user", shown.as_str()))
            },
            None => None,
        }
    } else if same(kind.as_str(), "user_message") {
        match event.text_field("text") {
            Some(s) => if blank(s.as_str()) {
                None
            } else {
                Some(entry("user", s.as_str()))
            },
            None => None,
        }
    } else if same(kind.as_str(), "assistant_text") {
        match event.text_field("text") {
            Some(s) => if blank(s.as_str()) {
                None
            } else {
                Some(entry("assistant", s.as_str()))
            },
            None => None,
        }
    } else if same(kind.as_str(), "tool_use") {
        let tool = match event.text_field("tool") {
            Some(s) => s,
            None => "tool".to_owned(),
        };
        let preview = if longer_than(input, SHOWN_INPUT) {
            let start = clipped(input, SHOWN_INPUT);
            cat2(start.as_str(), "…")
        } else {
            input.to_owned()
        };
        let shown = cat5("**", tool.as_str(), "** `", preview.as_str(), "`");
        Some(entry("tool", shown.as_str()))
    } else {
        None
    }
}

fn print_input(event: &Json) -> (r: String)
    ensures
        r@ == printed_input(event.tree()),
{
    match event.get("input") {
        Some(v) => render(v),
        None => String::new(),
    }
}

fn can_cut(input: &str) -> (r: bool)
    ensures
        r == input_fits(input@),
{
    !longer_than(input, SHOWN_INPUT) || can_clip(input, SHOWN_INPUT)
}

/// A worker's activity, out of its log: the last fifty entries. Nothing where
/// the input of a tool cannot be cut.
pub fn get_worker_activity(log: &str) -> (r: Option<Vec<WorkerActivityEntry>>)
    ensures
        r is Some <==> lines_can_be_cut(lines(log@)),
        r matches Some(list) ==> activities(list@) == last_of(
            activity_in(lines(log@)),
            SHOWN_ENTRIES as int,
        ),
{
    let list = lines_of(log);
    let ghost all = texts(list@);
    let n: usize = list.len();
    let mut out: Vec<WorkerActivityEntry> = Vec::new();
    let mut i: usize = 0;
    proof {
        assert(activities(out@) =~= activity_in(all.take(0)));
    }
    while i < n
        invariant
            n == list@.len(),
            all == texts(list@),
            all == lines(log@),
            0 <= i <= n,
            activities(out@) == activity_in(all.take(i as int)),
            forall|j: int|
                0 <= j < i && parsed(#[trigger] all[j]) is Some ==> event_can_be_cut(
                    parsed(all[j])->0,
                ),
        decreases n - i,
    {
        proof {
            assert(all.take(i + 1).drop_last() =~= all.take(i as int));
            assert(all.take(i + 1).last() == list@[i as int]@);
            assert(all[i as int] == list@[i as int]@);
        }
        if let Some(event) = parse(list[i].as_str()) {
            let input = print_input(&event);
            let kind = text_or_empty(&event, "type");
            if same(kind.as_str(), "tool_use") && !can_cut(input.as_str()) {
                return None;
            }
            if let Some(shown) = show_activity(&event, input.as_str()) {
                proof {
                    assert(activities(out@.push(shown)) =~= activities(out@).push(shown@));
                }
                out.push(shown);
            }
        }
        i = i + 1;
    }
    proof {
        assert(all.take(n as int) =~= all);
        assert(activities(out@).len() == out@.len());
    }
    let ghost whole = activities(out@);
    let total: usize = out.len();
    if total > SHOWN_ENTRIES {
        let ghost before = out@;
        let last = out.split_off(total - SHOWN_ENTRIES);
        proof {
            assert(activities(last@) =~= whole.skip(total - SHOWN_ENTRIES));
        }
        Some(last)
    } else {
        Some(out)
    }
}

// ---------------------------------------------------------------------------
// Terminal output
// ---------------------------------------------------------------------------

/// Whether a character is a letter of ASCII.
pub open spec fn is_letter(c: char) -> bool {
    ('a' <= c <= 'z') || ('A' <= c <= 'Z')
}

/// How many characters a control sequence goes on for, with the letter that
/// ends it.
pub open spec fn sequence_len(s: Seq<char>) -> int
    decreases s.len(),
{
    if s.len() == 0 {
        0
    } else if is_letter(s[0]) {
        1
    } else {
        1 + sequence_len(s.drop_first())
    }
}

/// A text without the escape sequences of terminals: the escape character
/// goes, and behind it what a bracket opens up to the letter that ends it.
pub open spec fn without_escapes(s: Seq<char>) -> Seq<char>
    decreases s.len(),
{
    if s.len() == 0 {
        seq![]
    } else if s[0] == '\u{1b}' {
        if s.len() > 1 && s[1] == '[' {
            let k = sequence_len(s.skip(2));
            if 0 <= k <= s.len() - 2 {
                without_escapes(s.skip(2 + k))
            } else {
                seq![]
            }
        } else {
            without_escapes(s.drop_first())
        }
    } else {
        seq![s[0]] + without_escapes(s.drop_first())
    }
}

proof fn lemma_sequence_len(s: Seq<char>, k: int)
    requires
        0 <= k <= s.len(),
        forall|i: int| 0 <= i < k - 1 ==> !is_letter(s[i]),
        k > 0 ==> (k == s.len() || is_letter(s[k - 1])),
        k == 0 ==> s.len() == 0,
    ensures
        sequence_len(s) == k,
    decreases s.len(),
{
    if k > 0 && !is_letter(s[0]) {
        let t = s.drop_first();
        assert forall|i: int| 0 <= i < k - 2 implies !is_letter(t[i]) by {
            assert(t[i] == s[i + 1]);
        }
        if k > 1 {
            assert(t[k - 2] == s[k - 1]);
        }
        lemma_sequence_len(t, k - 1);
    } else if k > 1 {
        assert(!is_letter(s[0]));
    }
}

/// A text without the escape sequences of terminals.
pub fn strip_ansi(s: &str) -> (r: String)
    ensures
        r@ == without_escapes(s@),
{
    let v = crate::text::chars_of(s);
    let n: usize = v.len();
    let mut out = String::new();
    let mut i: usize = 0;
    proof {
        assert(v@.skip(0) =~= v@);
        assert(out@ + without_escapes(v@) =~= without_escapes(v@));
    }
    while i < n
        invariant
            n == v@.len(),
            0 <= i <= n,
            without_escapes(v@) == out@ + without_escapes(v@.skip(i as int)),
        decreases n - i,
    {
        let ghost rest = v@.skip(i as int);
        proof {
            assert(rest[0] == v@[i as int]);
            assert(rest.drop_first() =~= v@.skip(i + 1));
        }
        if v[i] == '\u{1b}' {
            if i + 1 < n && v[i + 1] == '[' {
                let ghost body = rest.skip(2);
                proof {
                    assert(rest[1] == v@[i + 1]);
                    assert(body =~= v@.skip(i + 2));
                }
                let mut k: usize = i + 2;
                let mut ended: bool = false;
                while k < n && !ended
                    invariant
                        n == v@.len(),
                        i + 2 <= k <= n,
                        body == v@.skip(i + 2),
                        forall|j: int| 0 <= j < k - i - 3 ==> !is_letter(body[j]),
                        ended ==> k > i + 2 && is_letter(body[k - i - 3]),
                        !ended ==> forall|j: int| 0 <= j < k - i - 2 ==> !is_letter(body[j]),
                    decreases n - k,
                {
                    let c: char = v[k];
                    proof {
                        assert(body[k - i - 2] == c);
                    }
                    ended = ('a' <= c && c <= 'z') || ('A' <= c && c <= 'Z');
                    k = k + 1;
                }
                proof {
                    lemma_sequence_len(body, k - i - 2);
                    assert(rest.skip(2 + (k - i - 2)) =~= v@.skip(k as int));
                }
                i = k;
            } else {
                if i + 1 < n {
                    proof {
                        assert(rest[1] == v@[i + 1]);
                    }
                }
                i = i + 1;
            }
        } else {
            let ghost before = out@;
            let ghost tail = without_escapes(v@.skip(i + 1));
            proof {
                assert(before + (seq![v@[i as int]] + tail) =~= before.push(v@[i as int]) + tail);
            }
            out.push(v[i]);
            i = i + 1;
        }
    }
    proof {
        assert(out@ + without_escapes(v@.skip(n as int)) =~= out@);
    }
    out
}

/// No escape character is left, and what has none is left as it is.
pub proof fn law_escapes_are_gone(s: Seq<char>)
    ensures
        forall|i: int| 0 <= i < without_escapes(s).len() ==> without_escapes(s)[i] != '\u{1b}',
        (forall|i: int| 0 <= i < s.len() ==> s[i] != '\u{1b}') ==> without_escapes(s) == s,
    decreases s.len(),
{
    if s.len() > 0 {
        if s[0] == '\u{1b}' {
            if s.len() > 1 && s[1] == '[' {
                let k = sequence_len(s.skip(2));
                if 0 <= k <= s.len() - 2 {
                    law_escapes_are_gone(s.skip(2 + k));
                    assert(without_escapes(s) == without_escapes(s.skip(2 + k)));
                }
            } else {
                law_escapes_are_gone(s.drop_first());
                assert(without_escapes(s) == without_escapes(s.drop_first()));
            }
            assert(s[0] == '\u{1b}');
        } else {
            let t = s.drop_first();
            law_escapes_are_gone(t);
            let rest = without_escapes(t);
            let all = without_escapes(s);
            assert forall|i: int| 0 <= i < all.len() implies all[i] != '\u{1b}' by {
                if i > 0 {
                    assert(all[i] == rest[i - 1]);
                }
            }
            if forall|i: int| 0 <= i < s.len() ==> s[i] != '\u{1b}' {
                assert forall|i: int| 0 <= i < t.len() implies t[i] != '\u{1b}' by {
                    assert(t[i] == s[i + 1]);
                }
                assert(seq![s[0]] + t =~= s);
            }
        }
    } else {
        assert(without_escapes(s) =~= s);
    }
}

/// Stripping a text twice is stripping it once.
pub proof fn law_strip_is_idempotent(s: Seq<char>)
    ensures
        without_escapes(without_escapes(s)) == without_escapes(s),
{
    law_escapes_are_gone(s);
    law_escapes_are_gone(without_escapes(s));
}

// ---------------------------------------------------------------------------
// What is logged of a run
// ---------------------------------------------------------------------------

/// An event that an agent reports. A cost is held in decimal notation.
pub enum AgentEventWire {
    TextDelta { text: String },
    ToolUse { tool: String, input: String },
    ToolResult { output: String, is_error: bool },
    SessionResult { turns: u64, cost_usd: Option<String>, session_id: Option<String> },
    Error { message: String },
    Other,
}

/// An event in the log of a worker.
pub enum AgentEvent {
    AssistantText { timestamp: Moment, text: String },
    ToolUse { timestamp: Moment, tool: String, input: String },
    ToolResult { timestamp: Moment, tool: String, output: String, is_error: bool },
    SessionResult {
        timestamp: Moment,
        turns: u64,
        cost_usd: Option<String>,
        session_id: Option<String>,
    },
    Error { timestamp: Moment, message: String },
}

/// Whether `logged` is what the log holds of an event.
pub open spec fn logs(logged: Option<AgentEvent>, event: AgentEventWire, now: Moment) -> bool {
    match event {
        AgentEventWire::TextDelta { text: said } => match logged {
            Some(AgentEvent::AssistantText { timestamp, text }) => timestamp == now && text@
                == said@,
            _ => false,
        },
        AgentEventWire::ToolUse { tool: used, input: given } => match logged {
            Some(AgentEvent::ToolUse { timestamp, tool, input }) => timestamp == now && tool@
                == used@ && input@ == given@,
            _ => false,
        },
        AgentEventWire::ToolResult { output: shown, is_error: failed } => match logged {
            Some(AgentEvent::ToolResult { timestamp, tool, output, is_error }) => timestamp == now
                && tool@.len() == 0 && output@ == shown@ && is_error == failed,
            _ => false,
        },
        AgentEventWire::SessionResult { turns: taken, cost_usd: cost, session_id: session } =>
        match logged {
            Some(AgentEvent::SessionResult { timestamp, turns, cost_usd, session_id }) => timestamp
                == now && turns == taken && opt_text(cost_usd) == opt_text(cost) && opt_text(
                session_id,
            ) == opt_text(session),
            _ => false,
        },
        AgentEventWire::Error { message: problem } => match logged {
            Some(AgentEvent::Error { timestamp, message }) => timestamp == now && message@
                == problem@,
            _ => false,
        },
        AgentEventWire::Other => logged is None,
    }
}

/// What the log of a worker holds of an event, if anything.
pub fn log_event(event: &AgentEventWire, now: &Moment) -> (r: Option<AgentEvent>)
    ensures
        logs(r, *event, *now),
{
    match event {
        AgentEventWire::TextDelta { text } => Some(
            AgentEvent::AssistantText { timestamp: *now, text: text.clone() },
        ),
        AgentEventWire::ToolUse { tool, input } => Some(
            AgentEvent::ToolUse { timestamp: *now, tool: tool.clone(), input: input.clone() },
        ),
        AgentEventWire::ToolResult { output, is_error } => Some(
            AgentEvent::ToolResult {
                timestamp: *now,
                tool: String::new(),
                output: output.clone(),
                is_error: *is_error,
            },
        ),
        AgentEventWire::SessionResult { turns, cost_usd, session_id } => Some(
            AgentEvent::SessionResult {
                timestamp: *now,
                turns: *turns,
                cost_usd: cost_usd.clone(),
                session_id: session_id.clone(),
            },
        ),
        AgentEventWire::Error { message } => Some(
            AgentEvent::Error { timestamp: *now, message: message.clone() },
        ),
        AgentEventWire::Other => None,
    }
}

// ---------------------------------------------------------------------------
// Laws
// ---------------------------------------------------------------------------

proof fn lemma_kinds_differ()
    ensures
        "assistant_text"@ != "tool_use"@ && "assistant_text"@ != "user_message"@
            && "assistant_text"@ != "system"@ && "assistant_text"@ != "session_result"@
            && "assistant_text"@ != "start"@,
        "tool_use"@ != "user_message"@ && "tool_use"@ != "system"@ && "tool_use"@
            != "session_result"@ && "tool_use"@ != "start"@,
        "user_message"@ != "system"@ && "user_message"@ != "session_result"@ && "user_message"@
            != "start"@,
        "system"@ != "session_result"@ && "system"@ != "start"@ && "session_result"@ != "start"@,
{
    reveal_strlit("assistant_text");
    reveal_strlit("tool_use");
    reveal_strlit("user_message");
    reveal_strlit("system");
    reveal_strlit("session_result");
    reveal_strlit("start");
    assert("assistant_text"@[0] == 'a' && "tool_use"@[0] == 't' && "user_message"@[0] == 'u');
    assert("system"@[1] == 'y' && "session_result"@[1] == 'e' && "start"@[1] == 't');
    assert("system"@[0] == 's' && "session_result"@[0] == 's' && "start"@[0] == 's');
}

proof fn lemma_keys_differ()
    ensures
        "event_type"@ != "content"@ && "event_type"@ != "created_at"@ && "content"@
            != "created_at"@ && "event_type"@ != "tool"@ && "event_type"@ != "input_raw"@
            && "event_type"@ != "session_id"@,
        "tool"@ != "input_raw"@ && "tool"@ != "content"@ && "tool"@ != "created_at"@ && "tool"@
            != "input"@ && "event_type"@ != "input"@,
        "input"@ != "input_raw"@ && "input"@ != "content"@ && "input"@ != "created_at"@
            && "input_raw"@ != "content"@ && "input_raw"@ != "created_at"@,
        "content"@ != "session_id"@ && "session_id"@ != "created_at"@,
{
    reveal_strlit("event_type");
    reveal_strlit("content");
    reveal_strlit("created_at");
    reveal_strlit("tool");
    reveal_strlit("input");
    reveal_strlit("input_raw");
    reveal_strlit("session_id");
    assert("event_type"@.len() == 10 && "content"@.len() == 7 && "created_at"@.len() == 10
        && "tool"@.len() == 4 && "input"@.len() == 5 && "input_raw"@.len() == 9
        && "session_id"@.len() == 10);
    assert("event_type"@[0] == 'e' && "created_at"@[0] == 'c' && "session_id"@[0] == 's');
}

proof fn lemma_plain_event(kind: Seq<char>, content: Seq<char>, created_at: Seq<char>)
    ensures
        text_field(plain_event(kind, content, created_at), "event_type"@) == Some(kind),
        text_field(plain_event(kind, content, created_at), "content"@) == Some(content),
        text_field(plain_event(kind, content, created_at), "created_at"@) == Some(created_at),
{
    lemma_keys_differ();
    let t = plain_event(kind, content, created_at);
    lemma_field_is(t, "event_type"@, 0);
    lemma_field_is(t, "content"@, 1);
    lemma_field_is(t, "created_at"@, 2);
}

/// What an agent said, what a user said and what the system said is shown as
/// such, with its text and its time; a session that starts is shown as starting.
pub proof fn law_texts_are_shown(event: Tree, raw: Seq<char>, input: Option<Tree>, said: Seq<char>)
    ensures
        text_field(event, "type"@) == Some("assistant_text"@) && text_field(event, "text"@)
            == Some(said) ==> {
            let t = shown_event(event, raw, input);
            &&& t is Some
            &&& text_field(t->0, "event_type"@) == Some("assistant_text"@)
            &&& text_field(t->0, "content"@) == Some(said)
            &&& text_field(t->0, "created_at"@) == Some(event_text(event, "timestamp"@))
        },
        text_field(event, "type"@) == Some("user_message"@) && text_field(event, "text"@) == Some(
            said,
        ) ==> {
            let t = shown_event(event, raw, input);
            &&& t is Some
            &&& text_field(t->0, "event_type"@) == Some("user_message"@)
            &&& text_field(t->0, "content"@) == Some(said)
            &&& text_field(t->0, "created_at"@) == Some(event_text(event, "timestamp"@))
        },
        text_field(event, "type"@) == Some("user_message"@) && field(event, "text"@) is None
            && text_field(event, "message"@) == Some(said) ==> {
            let t = shown_event(event, raw, input);
            &&& t is Some
            &&& text_field(t->0, "content"@) == Some(said)
        },
        text_field(event, "type"@) == Some("system"@) && text_field(event, "text"@) == Some(said)
            ==> {
            let t = shown_event(event, raw, input);
            &&& t is Some
            &&& text_field(t->0, "event_type"@) == Some("system"@)
            &&& text_field(t->0, "content"@) == Some(said)
            &&& text_field(t->0, "created_at"@) == Some(event_text(event, "timestamp"@))
        },
        text_field(event, "type"@) == Some("start"@) ==> {
            let t = shown_event(event, raw, input);
            &&& t is Some
            &&& text_field(t->0, "event_type"@) == Some("session_start"@)
            &&& text_field(t->0, "created_at"@) == Some(event_text(event, "timestamp"@))
        },
        text_field(event, "type"@) is None ==> shown_event(event, raw, input) is None,
{
    lemma_kinds_differ();
    let at = event_text(event, "timestamp"@);
    lemma_plain_event("assistant_text"@, said, at);
    lemma_plain_event("user_message"@, user_text(event), at);
    lemma_plain_event("system"@, said, at);
    lemma_plain_event("session_start"@, seq![], at);
}

/// The use of a tool is shown with the tool's name, its input as text and as an
/// object where it is one, and its time; the end of a session with its
/// identifier.
pub proof fn law_tools_and_sessions_are_shown(event: Tree, raw: Seq<char>, input: Option<Tree>)
    ensures
        text_field(event, "type"@) == Some("tool_use"@) ==> {
            let t = shown_event(event, raw, input);
            &&& t is Some
            &&& text_field(t->0, "event_type"@) == Some("tool_use"@)
            &&& text_field(event, "tool"@) is Some ==> text_field(t->0, "tool"@) == text_field(
                event,
                "tool"@,
            )
            &&& text_field(event, "tool"@) is None ==> text_field(t->0, "tool"@) == Some(
                "unknown"@,
            )
            &&& text_field(t->0, "input_raw"@) == Some(raw)
            &&& input is Some ==> field(t->0, "input"@) == input
            &&& input is None ==> field(t->0, "input"@) == Some(Tree::Null)
            &&& text_field(t->0, "content"@) == Some(
                text_field(t->0, "tool"@)->0 + ": "@ + raw,
            )
            &&& text_field(t->0, "created_at"@) == Some(event_text(event, "timestamp"@))
        },
        text_field(event, "type"@) == Some("session_result"@) ==> {
            let t = shown_event(event, raw, input);
            &&& t is Some
            &&& text_field(t->0, "event_type"@) == Some("session_result"@)
            &&& text_field(t->0, "session_id"@) == text_field(event, "session_id"@)
            &&& text_field(event, "session_id"@) is Some ==> text_field(t->0, "content"@)
                == text_field(event, "session_id"@)
            &&& text_field(t->0, "created_at"@) == Some(event_text(event, "timestamp"@))
        },
{
    lemma_kinds_differ();
    lemma_keys_differ();
    if text_field(event, "type"@) == Some("tool_use"@) {
        let t = shown_event(event, raw, input)->0;
        lemma_field_is(t, "event_type"@, 0);
        lemma_field_is(t, "tool"@, 1);
        lemma_field_is(t, "input"@, 2);
        lemma_field_is(t, "input_raw"@, 3);
        lemma_field_is(t, "content"@, 4);
        lemma_field_is(t, "created_at"@, 5);
    }
    if text_field(event, "type"@) == Some("session_result"@) {
        let t = shown_event(event, raw, input)->0;
        lemma_field_is(t, "event_type"@, 0);
        lemma_field_is(t, "content"@, 1);
        lemma_field_is(t, "session_id"@, 2);
        lemma_field_is(t, "created_at"@, 3);
    }
}

/// Every line of a log that tells an event of a known kind is shown, in order,
/// and the rest is left out.
pub proof fn law_known_events_are_shown_in_order(list: Seq<Seq<char>>, k: int)
    requires
        0 <= k < list.len(),
    ensures
        events_shown(list) == events_shown(list.take(k)) + events_shown(list.skip(k)),
        parsed(list[k]) is Some && event_shown(parsed(list[k])->0) is Some ==> events_shown(
            list.take(k + 1),
        ) == events_shown(list.take(k)).push(event_shown(parsed(list[k])->0)->0),
        parsed(list[k]) is None || event_shown(parsed(list[k])->0) is None ==> events_shown(
            list.take(k + 1),
        ) == events_shown(list.take(k)),
    decreases list.len(),
{
    assert(list.take(k + 1).drop_last() =~= list.take(k));
    let front = list.drop_last();
    if k == list.len() - 1 {
        assert(front =~= list.take(k));
        assert(list.skip(k) =~= seq![list.last()]);
        assert(list.skip(k).drop_last() =~= Seq::<Seq<char>>::empty());
        assert(events_shown(list.skip(k).drop_last()) =~= seq![]);
        assert(events_shown(list) =~= events_shown(list.take(k)) + events_shown(list.skip(k)));
    } else {
        law_known_events_are_shown_in_order(front, k);
        assert(front.take(k) =~= list.take(k));
        assert(front.skip(k) =~= list.skip(k).drop_last());
        assert(events_shown(list) =~= events_shown(list.take(k)) + events_shown(list.skip(k)));
    }
}

/// What is told of the activity of a worker: what a user and the agent said,
/// each as theirs, unless it is blank; the use of a tool with its name and the
/// start of its input; and the start of the prompt.
pub proof fn law_activity_tells_who_did_what(event: Tree, input: Seq<char>, said: Seq<char>)
    ensures
        text_field(event, "type"@) == Some("user_message"@) && text_field(event, "text"@) == Some(
            said,
        ) && trim(said).len() > 0 ==> activity_of(event, input) == Some(
            Activity { role: "user"@, text: said },
        ),
        text_field(event, "type"@) == Some("assistant_text"@) && text_field(event, "text"@)
            == Some(said) && trim(said).len() > 0 ==> activity_of(event, input) == Some(
            Activity { role: "assistant"@, text: said },
        ),
        (text_field(event, "type"@) == Some("user_message"@) || text_field(event, "type"@) == Some(
            "assistant_text"@,
        )) && (text_field(event, "text"@) is None || trim(text_field(event, "text"@)->0).len()
            == 0) ==> activity_of(event, input) is None,
        text_field(event, "type"@) == Some("tool_use"@) && text_field(event, "tool"@) == Some(said)
            ==> activity_of(event, input) == Some(
            Activity {
                role: "tool"@,
                text: "**"@ + said + "** `"@ + input_preview(input) + "`"@,
            },
        ),
        text_field(event, "type"@) == Some("start"@) && text_field(event, "prompt"@) == Some(said)
            ==> activity_of(event, input) == Some(
            Activity { role: "user"@, text: first_chars(said, 200) + "…"@ },
        ),
        text_field(event, "type"@) == Some("system"@) || text_field(event, "type"@) == Some(
            "session_result"@,
        ) ==> activity_of(event, input) is None,
{
    lemma_kinds_differ();
}

/// An input of two hundred bytes or less is shown whole; of a longer one the
/// start is, and a mark tells that it was cut.
pub proof fn law_long_inputs_are_cut(input: Seq<char>)
    ensures
        byte_len(input) <= 200 ==> input_preview(input) == input,
        byte_len(input) > 200 ==> input_preview(input) == clip(input, 200) + "…"@,
{
}

/// Each line of a log that tells an activity adds one entry, behind those of
/// the lines before it, and no other line does.
pub proof fn law_activity_keeps_the_order(list: Seq<Seq<char>>, line: Seq<char>)
    ensures
        parsed(line) is Some && activity_of(parsed(line)->0, printed_input(parsed(line)->0))
            is Some ==> activity_in(list.push(line)) == activity_in(list).push(
            activity_of(parsed(line)->0, printed_input(parsed(line)->0))->0,
        ),
        parsed(line) is None || activity_of(parsed(line)->0, printed_input(parsed(line)->0))
            is None ==> activity_in(list.push(line)) == activity_in(list),
        activity_in(Seq::<Seq<char>>::empty()).len() == 0,
{
    assert(list.push(line).drop_last() =~= list);
}

proof fn lemma_sequence_ends_at_letter(params: Seq<char>, letter: char, rest: Seq<char>)
    requires
        is_letter(letter),
        forall|i: int| 0 <= i < params.len() ==> !is_letter(#[trigger] params[i]),
    ensures
        sequence_len(params + seq![letter] + rest) == params.len() + 1,
    decreases params.len(),
{
    let s = params + seq![letter] + rest;
    if params.len() > 0 {
        let t = params.drop_first();
        assert forall|i: int| 0 <= i < t.len() implies !is_letter(#[trigger] t[i]) by {
            assert(t[i] == params[i + 1]);
        }
        lemma_sequence_ends_at_letter(t, letter, rest);
        assert(s.drop_first() =~= t + seq![letter] + rest);
        assert(s[0] == params[0]);
    } else {
        assert(s[0] == letter);
    }
}

/// A colour sequence is cut out up to the letter that ends it, and nothing else
/// of the text is touched.
pub proof fn law_sequence_is_cut_out(params: Seq<char>, letter: char, rest: Seq<char>, c: char)
    requires
        is_letter(letter),
        forall|i: int| 0 <= i < params.len() ==> !is_letter(#[trigger] params[i]),
        c != '\u{1b}',
    ensures
        without_escapes(seq!['\u{1b}', '['] + params + seq![letter] + rest) == without_escapes(
            rest,
        ),
        without_escapes(seq![c] + rest) == seq![c] + without_escapes(rest),
{
    let tail = params + seq![letter] + rest;
    let s = seq!['\u{1b}', '['] + params + seq![letter] + rest;
    lemma_sequence_ends_at_letter(params, letter, rest);
    assert(s.skip(2) =~= tail);
    assert(s.skip(2 + (params.len() as int + 1)) =~= rest);
    assert(s[0] == '\u{1b}' && s[1] == '[');
    assert((seq![c] + rest).drop_first() =~= rest);
}

/// Every event of an agent is logged as what it is, with all that it tells and
/// the time; what is not known is not logged.
pub proof fn law_events_are_logged(logged: Option<AgentEvent>, event: AgentEventWire, now: Moment)
    requires
        logs(logged, event, now),
    ensures
        logged is Some <==> !(event is Other),
        event is TextDelta ==> logged->0 is AssistantText && logged->0->AssistantText_text@
            == event->TextDelta_text@ && logged->0->AssistantText_timestamp == now,
        event is ToolUse ==> logged->0 is ToolUse && logged->0->ToolUse_tool@
            == event->ToolUse_tool@ && logged->0->ToolUse_input@ == event->ToolUse_input@
            && logged->0->ToolUse_timestamp == now,
        event is ToolResult ==> logged->0 is ToolResult && logged->0->ToolResult_output@
            == event->ToolResult_output@ && logged->0->ToolResult_is_error
            == event->ToolResult_is_error && logged->0->ToolResult_timestamp == now,
        event is SessionResult ==> logged->0 is SessionResult && logged->0->SessionResult_turns
            == event->SessionResult_turns && opt_text(logged->0->SessionResult_session_id)
            == opt_text(event->SessionResult_session_id) && logged->0->SessionResult_timestamp
            == now,
        event is Error ==> logged->0 is Error && logged->0->Error_message@ == event->Error_message@
            && logged->0->Error_timestamp == now,
{
}

} // verus!
