//! The coordinator's task: what it does with each job, and when its session is
//! compacted. Jobs are handled one after the other; talking to the model, to
//! Telegram and to the database is left to the actions.

use crate::action::{
    activity, acts, done, failure, only_if, plan, save, send, token, Act, Action, CoordinatorJob,
    Job, Response,
};
use crate::notify::{follow_through, follow_through_message};
use crate::text::{
    cat2, cat4, cat5, contains, join, joined, lemma_inside, lemma_join_holds, lowercase, lowered,
    same, starts_with, texts, trim, trimmed,
};
use vstd::prelude::*;

verus! {

/// The state of the coordinator's task.
pub struct CoordinatorTask {
    /// How many turns the current session has had.
    pub turn_count: u32,
    /// After how many turns a session is compacted; never where this is 0.
    pub max_session_turns: u32,
    /// Whether terminal clients can be told about activity.
    pub server: bool,
}

/// How many turns a follow-through may take.
pub const FOLLOW_THROUGH_TURNS: u32 = 3;

/// What the coordinator reports while it works on a message.
pub enum CoordinatorEvent {
    Token(String),
    BashAudit { command: String, matched_pattern: String },
    /// Files of the workspace changed: each with its repository.
    FilesModified { files: Vec<(String, String)> },
}

/// What became of a message that the coordinator was given.
pub enum Outcome {
    Answer(String),
    Failure(String),
}

impl CoordinatorTask {
    /// The count of turns stays below the limit on them.
    pub open spec fn wf(self) -> bool {
        self.max_session_turns > 0 ==> self.turn_count < self.max_session_turns
    }
}

/// Whether a session that has had `turns` turns is compacted.
pub open spec fn is_due(limit: u32, turns: int) -> bool {
    limit > 0 && turns >= limit
}

/// The count of turns after one more.
pub open spec fn next_turns(limit: u32, turns: int) -> int {
    if is_due(limit, turns + 1) {
        0
    } else {
        turns + 1
    }
}

/// What a user is told when a session is compacted.
pub open spec fn compact_note() -> Seq<char> {
    "\u{1f5dc}\u{fe0f} Session compacted. Starting fresh."@
}

/// What is done when a job arrives.
pub open spec fn begin_acts(job: Job, has_session: bool, elapsed: u64, server: bool) -> Seq<Act> {
    match job {
        Job::TelegramMessage(text, target, message_id, slot) => seq![
            Act::React(target.chat_id, message_id, "👀"@),
            Act::StartTyping(target),
            Act::Prepare,
        ],
        Job::TuiChat(text, ws) => seq![Act::Prepare],
        Job::ResetSession => seq![Act::ResetSession],
        Job::Compact(telegram, tui, slot) => seq![Act::ResetSession] + only_if(
            server,
            Act::Reply(
                Response::Activity("system"@, slot, "assistant_message"@, compact_note()),
            ),
        ) + match telegram {
            Some(target) => seq![Act::Send(target, compact_note())],
            None => seq![],
        } + if tui {
            seq![
                Act::Reply(Response::Token(slot, compact_note())),
                Act::Reply(Response::Done(slot)),
            ]
        } else {
            seq![]
        },
        Job::SignalFollowThrough(signals, source, template, ttl, telegram, slot) => if elapsed
            >= ttl || !has_session {
            seq![]
        } else {
            seq![Act::SetMaxTurns(FOLLOW_THROUGH_TURNS), Act::Prepare]
        },
    }
}

/// What the coordinator is asked for a job, where it is asked anything.
pub open spec fn prompt_of(job: Job) -> Option<Seq<char>> {
    match job {
        Job::TelegramMessage(text, target, message_id, slot) => Some(text),
        Job::TuiChat(text, ws) => Some(text),
        Job::ResetSession => None,
        Job::Compact(telegram, tui, slot) => None,
        Job::SignalFollowThrough(signals, source, template, ttl, telegram, slot) => Some(
            follow_through_message(source, signals, template),
        ),
    }
}

/// What is done when the options of the coordinator's turn cannot be gathered.
pub open spec fn unprepared_acts(job: Job, error: Seq<char>, saved_turns: u32) -> Seq<Act> {
    match job {
        Job::TelegramMessage(text, target, message_id, slot) => seq![Act::StopTyping],
        Job::TuiChat(text, ws) => seq![Act::Reply(Response::Error(ws, error))],
        Job::ResetSession => seq![],
        Job::Compact(telegram, tui, slot) => seq![],
        Job::SignalFollowThrough(signals, source, template, ttl, telegram, slot) => seq![
            Act::SetMaxTurns(saved_turns),
        ],
    }
}

/// The alerts about changed files: each to the chat and to the clients.
pub open spec fn alert_acts(
    alerts: Seq<Seq<char>>,
    target: crate::action::ChatTarget,
    slot: Seq<char>,
    server: bool,
) -> Seq<Act>
    decreases alerts.len(),
{
    if alerts.len() == 0 {
        seq![]
    } else {
        alert_acts(alerts.drop_last(), target, slot, server) + seq![
            Act::Send(target, alerts.last()),
        ] + only_if(
            server,
            Act::Reply(Response::Activity("system"@, slot, "safety_alert"@, alerts.last())),
        )
    }
}

/// Whether an answer to a follow-through is passed on: it is not empty and not
/// a mere acknowledgement. `lower` is the answer in lower case.
pub open spec fn is_worth_telling(answer: Seq<char>, lower: Seq<char>) -> bool {
    answer.len() > 0 && lower != "ack"@
}

/// What is done with the coordinator's answer, in a session that has had
/// `turns` turns before.
pub open spec fn answer_acts(
    job: Job,
    response: Seq<char>,
    alerts: Seq<Seq<char>>,
    turns: int,
    limit: u32,
    saved_turns: u32,
    server: bool,
) -> Seq<Act> {
    match job {
        Job::TelegramMessage(text, target, message_id, slot) => seq![
            Act::StopTyping,
            Act::Save("user"@, text, "telegram"@),
            Act::Save("assistant"@, response, "system"@),
        ] + only_if(
            server,
            Act::Reply(Response::Activity("telegram"@, slot, "assistant_message"@, response)),
        ) + alert_acts(alerts, target, slot, server) + seq![Act::Send(target, response)] + only_if(
            is_due(limit, turns + 1),
            Act::ResetSession,
        ),
        Job::TuiChat(text, ws) => seq![
            Act::Save("user"@, text, "tui"@),
            Act::Save("assistant"@, response, "system"@),
            Act::Reply(Response::Done(ws)),
        ] + only_if(
            server,
            Act::Reply(Response::Activity("tui"@, ws, "assistant_message"@, response)),
        ) + only_if(is_due(limit, turns + 1), Act::ResetSession),
        Job::ResetSession => seq![],
        Job::Compact(telegram, tui, slot) => seq![],
        Job::SignalFollowThrough(signals, source, template, ttl, telegram, slot) => {
            let answer = trim(response);
            (if is_worth_telling(answer, lowercase(answer)) {
                (match telegram {
                    Some(target) => seq![Act::Send(target, answer)],
                    None => seq![],
                }) + only_if(
                    server,
                    Act::Reply(
                        Response::Activity("signal"@, slot, "assistant_message"@, answer),
                    ),
                )
            } else {
                seq![]
            }) + seq![Act::SetMaxTurns(saved_turns)]
        },
    }
}

/// What is done when the coordinator fails: a session that was resumed is
/// given up.
pub open spec fn failure_acts(
    job: Job,
    error: Seq<char>,
    has_session: bool,
    saved_turns: u32,
) -> Seq<Act> {
    match job {
        Job::TelegramMessage(text, target, message_id, slot) => seq![
            Act::StopTyping,
            Act::Save("user"@, text, "telegram"@),
        ] + only_if(has_session, Act::ResetSession) + seq![Act::Send(target, "Error: "@ + error)],
        Job::TuiChat(text, ws) => seq![Act::Save("user"@, text, "tui"@)] + only_if(
            has_session,
            Act::ResetSession,
        ) + seq![Act::Reply(Response::Error(ws, error))],
        Job::ResetSession => seq![],
        Job::Compact(telegram, tui, slot) => seq![],
        Job::SignalFollowThrough(signals, source, template, ttl, telegram, slot) => seq![
            Act::SetMaxTurns(saved_turns),
        ],
    }
}

/// Whether a job is a message of a user: only those count as turns.
pub open spec fn is_user_message(job: Job) -> bool {
    job is TelegramMessage || job is TuiChat
}

/// The count of turns after the coordinator has worked on a job.
pub open spec fn turns_after(
    job: Job,
    outcome: Outcome,
    has_session: bool,
    turns: int,
    limit: u32,
) -> int {
    if !is_user_message(job) {
        turns
    } else {
        match outcome {
            Outcome::Answer(text) => next_turns(limit, turns),
            Outcome::Failure(error) => if has_session {
                0
            } else {
                turns
            },
        }
    }
}

/// The names of changed files as an alert lists them.
pub open spec fn file_bullets(files: Seq<(String, String)>) -> Seq<Seq<char>> {
    files.map_values(|f: (String, String)| "- `"@ + f.0@ + "/"@ + f.1@ + "`"@)
}

/// The alert about changed files.
pub open spec fn files_alert(files: Seq<(String, String)>) -> Seq<char> {
    "⚠️ Coordinator modified workspace files:\n"@ + join(file_bullets(files), "\n"@)
}

/// The lines of a warning about changed files.
pub open spec fn file_lines(files: Seq<(String, String)>) -> Seq<Seq<char>> {
    files.map_values(|f: (String, String)| "  - "@ + f.0@ + "/"@ + f.1@)
}

/// What a user of the command line is told about an event.
pub open spec fn warning_of(event: CoordinatorEvent) -> Option<Seq<char>> {
    match event {
        CoordinatorEvent::Token(piece) => None,
        CoordinatorEvent::BashAudit { command, matched_pattern } => Some(
            "Bash audit ("@ + matched_pattern@ + "): "@ + command@,
        ),
        CoordinatorEvent::FilesModified { files } => Some(
            "Warning: coordinator modified workspace files:\n"@ + join(file_lines(files@), "\n"@),
        ),
    }
}

/// What a user of the command line is told about an event.
pub fn event_warning(event: &CoordinatorEvent) -> (r: Option<String>)
    ensures
        crate::text::opt_text(r) == warning_of(*event),
{
    match event {
        CoordinatorEvent::Token(_) => None,
        CoordinatorEvent::BashAudit { command, matched_pattern } => Some(
            cat4(
                "Bash audit (",
                matched_pattern.as_str(),
                "): ",
                command.as_str(),
            ),
        ),
        CoordinatorEvent::FilesModified { files } => {
            let n: usize = files.len();
            let mut lines: Vec<String> = Vec::new();
            let mut i: usize = 0;
            while i < n
                invariant
                    n == files@.len(),
                    0 <= i <= n,
                    lines@.len() == i,
                    forall|j: int|
                        0 <= j < i ==> (#[trigger] lines@[j])@ == "  - "@ + files@[j].0@ + "/"@
                            + files@[j].1@,
                decreases n - i,
            {
                lines.push(
                    cat4("  - ", files[i].0.as_str(), "/", files[i].1.as_str()),
                );
                i = i + 1;
            }
            proof {
                assert(texts(lines@) =~= file_lines(files@));
            }
            let list = joined(&lines, "\n");
            Some(cat2("Warning: coordinator modified workspace files:\n", list.as_str()))
        },
    }
}

/// Whether an answer to a follow-through is passed on.
pub fn worth_telling(answer: &str, lower: &str) -> (r: bool)
    ensures
        r == is_worth_telling(answer@, lower@),
{
    !answer.is_empty() && !same(lower, "ack")
}

impl CoordinatorTask {
    /// A task with a fresh session.
    pub fn new(max_session_turns: u32, server: bool) -> (r: CoordinatorTask)
        ensures
            r.wf(),
            r.turn_count == 0,
            r.max_session_turns == max_session_turns,
            r.server == server,
    {
        CoordinatorTask { turn_count: 0, max_session_turns, server }
    }

    /// Takes up a job. `elapsed_secs` is for how long it has been queued.
    pub fn begin(&mut self, job: &CoordinatorJob, has_session: bool, elapsed_secs: u64) -> (r: Vec<
        Action,
    >)
        requires
            old(self).wf(),
        ensures
            final(self).wf(),
            final(self).max_session_turns == old(self).max_session_turns,
            final(self).server == old(self).server,
            final(self).turn_count == if job@ is ResetSession || job@ is Compact {
                0
            } else {
                old(self).turn_count
            },
            acts(r@) == begin_acts(job@, has_session, elapsed_secs, old(self).server),
    {
        let mut out: Vec<Action> = Vec::new();
        match job {
            CoordinatorJob::TelegramMessage { text, target, message_id, slot_name } => {
                plan(
                    &mut out,
                    Action::React {
                        chat_id: target.chat_id,
                        message_id: *message_id,
                        emoji: "👀".to_owned(),
                    },
                );
                plan(&mut out, Action::StartTyping { target: *target });
                plan(&mut out, Action::Prepare);
            },
            CoordinatorJob::TuiChat { text, ws_name } => {
                plan(&mut out, Action::Prepare);
            },
            CoordinatorJob::ResetSession => {
                self.turn_count = 0;
                plan(&mut out, Action::ResetSession);
            },
            CoordinatorJob::Compact { telegram, tui, slot_name } => {
                let note = "\u{1f5dc}\u{fe0f} Session compacted. Starting fresh.";
                self.turn_count = 0;
                plan(&mut out, Action::ResetSession);
                if self.server {
                    plan(
                        &mut out,
                        activity("system", slot_name.as_str(), "assistant_message", note),
                    );
                }
                if let Some(target) = telegram {
                    plan(&mut out, send(*target, note));
                }
                if *tui {
                    plan(&mut out, token(slot_name.as_str(), note));
                    plan(&mut out, done(slot_name.as_str()));
                }
            },
            CoordinatorJob::SignalFollowThrough {
                signals,
                source,
                prompt_override,
                ttl_secs,
                telegram,
                slot_name,
            } => {
                if elapsed_secs < *ttl_secs && has_session {
                    plan(&mut out, Action::SetMaxTurns(FOLLOW_THROUGH_TURNS));
                    plan(&mut out, Action::Prepare);
                }
            },
        }
        proof {
            assert(acts(out@) =~= begin_acts(job@, has_session, elapsed_secs, old(self).server));
        }
        out
    }
}

/// What the coordinator is asked for a job, where it is asked anything.
pub fn prompt_for(job: &CoordinatorJob) -> (r: Option<String>)
    ensures
        crate::text::opt_text(r) == prompt_of(job@),
{
    match job {
        CoordinatorJob::TelegramMessage { text, target, message_id, slot_name } => Some(
            text.clone(),
        ),
        CoordinatorJob::TuiChat { text, ws_name } => Some(text.clone()),
        CoordinatorJob::ResetSession => None,
        CoordinatorJob::Compact { telegram, tui, slot_name } => None,
        CoordinatorJob::SignalFollowThrough {
            signals,
            source,
            prompt_override,
            ttl_secs,
            telegram,
            slot_name,
        } => Some(follow_through(source.as_str(), signals, prompt_override)),
    }
}

/// What is done when the options of the coordinator's turn cannot be gathered.
pub fn unprepared(job: &CoordinatorJob, error: &str, saved_turns: u32) -> (r: Vec<Action>)
    ensures
        acts(r@) == unprepared_acts(job@, error@, saved_turns),
{
    let mut out: Vec<Action> = Vec::new();
    match job {
        CoordinatorJob::TelegramMessage { text, target, message_id, slot_name } => {
            plan(&mut out, Action::StopTyping);
        },
        CoordinatorJob::TuiChat { text, ws_name } => {
            plan(&mut out, failure(ws_name.as_str(), error));
        },
        CoordinatorJob::ResetSession => {},
        CoordinatorJob::Compact { telegram, tui, slot_name } => {},
        CoordinatorJob::SignalFollowThrough {
            signals,
            source,
            prompt_override,
            ttl_secs,
            telegram,
            slot_name,
        } => {
            plan(&mut out, Action::SetMaxTurns(saved_turns));
        },
    }
    proof {
        assert(acts(out@) =~= unprepared_acts(job@, error@, saved_turns));
    }
    out
}

/// The alert about changed files.
pub fn format_files_alert(files: &Vec<(String, String)>) -> (r: String)
    ensures
        r@ == files_alert(files@),
{
    let mut list: Vec<String> = Vec::new();
    let n: usize = files.len();
    let mut i: usize = 0;
    proof {
        assert(texts(list@) =~= file_bullets(files@.take(0)));
    }
    while i < n
        invariant
            n == files@.len(),
            0 <= i <= n,
            texts(list@) == file_bullets(files@.take(i as int)),
        decreases n - i,
    {
        let line = cat5("- `", files[i].0.as_str(), "/", files[i].1.as_str(), "`");
        proof {
            assert(file_bullets(files@.take(i + 1)) =~= file_bullets(files@.take(i as int)).push(
                line@,
            ));
            assert(texts(list@.push(line)) =~= texts(list@).push(line@));
        }
        list.push(line);
        i = i + 1;
    }
    proof {
        assert(files@.take(n as int) =~= files@);
    }
    let body = joined(&list, "\n");
    cat2("⚠️ Coordinator modified workspace files:\n", body.as_str())
}

/// What is passed on at once of what the coordinator reports while it works on
/// a job: to a terminal client each piece of the answer.
pub fn event_action(job: &CoordinatorJob, event: &CoordinatorEvent) -> (r: Option<Action>)
    ensures
        match (*job, *event) {
            (CoordinatorJob::TuiChat { text, ws_name }, CoordinatorEvent::Token(piece)) => r is Some
                && r->0@ == Act::Reply(Response::Token(ws_name@, piece@)),
            _ => r is None,
        },
{
    match job {
        CoordinatorJob::TuiChat { text, ws_name } => match event {
            CoordinatorEvent::Token(piece) => Some(token(ws_name.as_str(), piece.as_str())),
            _ => None,
        },
        _ => None,
    }
}

/// What a user on Telegram is warned of once the coordinator has answered.
pub fn event_alert(job: &CoordinatorJob, event: &CoordinatorEvent) -> (r: Option<String>)
    ensures
        match (*job, *event) {
            (
                CoordinatorJob::TelegramMessage { text, target, message_id, slot_name },
                CoordinatorEvent::FilesModified { files },
            ) => r is Some && r->0@ == files_alert(files@),
            _ => r is None,
        },
{
    match job {
        CoordinatorJob::TelegramMessage { text, target, message_id, slot_name } => match event {
            CoordinatorEvent::FilesModified { files } => Some(format_files_alert(files)),
            _ => None,
        },
        _ => None,
    }
}

fn plan_alerts(
    out: &mut Vec<Action>,
    alerts: &Vec<String>,
    target: crate::action::ChatTarget,
    slot: &str,
    server: bool,
)
    ensures
        acts(final(out)@) == acts(old(out)@) + alert_acts(texts(alerts@), target, slot@, server),
{
    let ghost base = acts(out@);
    let ghost all = texts(alerts@);
    let n: usize = alerts.len();
    let mut i: usize = 0;
    proof {
        assert(base + alert_acts(all.take(0), target, slot@, server) =~= base);
    }
    while i < n
        invariant
            n == alerts@.len(),
            0 <= i <= n,
            all == texts(alerts@),
            acts(out@) == base + alert_acts(all.take(i as int), target, slot@, server),
        decreases n - i,
    {
        proof {
            assert(all.take(i + 1).drop_last() =~= all.take(i as int));
            assert(all.take(i + 1).last() == alerts@[i as int]@);
        }
        plan(out, send(target, alerts[i].as_str()));
        if server {
            plan(out, activity("system", slot, "safety_alert", alerts[i].as_str()));
        }
        proof {
            assert(acts(out@) =~= base + alert_acts(all.take(i + 1), target, slot@, server));
        }
        i = i + 1;
    }
    proof {
        assert(all.take(n as int) =~= all);
    }
}

impl CoordinatorTask {
    /// Counts a turn and compacts the session where it is due.
    fn count_turn(&mut self, out: &mut Vec<Action>)
        requires
            old(self).wf(),
            old(self).max_session_turns == 0 ==> old(self).turn_count < u32::MAX,
        ensures
            final(self).wf(),
            final(self).max_session_turns == old(self).max_session_turns,
            final(self).server == old(self).server,
            final(self).turn_count == next_turns(
                old(self).max_session_turns,
                old(self).turn_count as int,
            ),
            acts(final(out)@) == acts(old(out)@) + only_if(
                is_due(old(self).max_session_turns, old(self).turn_count + 1),
                Act::ResetSession,
            ),
    {
        self.turn_count = self.turn_count + 1;
        if self.max_session_turns > 0 && self.turn_count >= self.max_session_turns {
            self.turn_count = 0;
            plan(out, Action::ResetSession);
        }
        proof {
            assert(acts(out@) =~= acts(old(out)@) + only_if(
                is_due(old(self).max_session_turns, old(self).turn_count + 1),
                Act::ResetSession,
            ));
        }
    }

    /// What is done with the outcome of the coordinator's work on a job.
    /// `alerts` are the warnings that came up meanwhile, `has_session` tells
    /// whether the coordinator has a session now, and `saved_turns` is how many
    /// turns it was allowed before the job.
    pub fn finish(
        &mut self,
        job: &CoordinatorJob,
        outcome: &Outcome,
        alerts: &Vec<String>,
        has_session: bool,
        saved_turns: u32,
    ) -> (r: Vec<Action>)
        requires
            old(self).wf(),
            old(self).max_session_turns == 0 ==> old(self).turn_count < u32::MAX,
        ensures
            final(self).wf(),
            final(self).max_session_turns == old(self).max_session_turns,
            final(self).server == old(self).server,
            final(self).turn_count == turns_after(
                job@,
                *outcome,
                has_session,
                old(self).turn_count as int,
                old(self).max_session_turns,
            ),
            acts(r@) == match *outcome {
                Outcome::Answer(text) => answer_acts(
                    job@,
                    text@,
                    texts(alerts@),
                    old(self).turn_count as int,
                    old(self).max_session_turns,
                    saved_turns,
                    old(self).server,
                ),
                Outcome::Failure(error) => failure_acts(job@, error@, has_session, saved_turns),
            },
    {
        let mut out: Vec<Action> = Vec::new();
        let server: bool = self.server;
        match job {
            CoordinatorJob::TelegramMessage { text, target, message_id, slot_name } => {
                let slot = slot_name.as_str();
                plan(&mut out, Action::StopTyping);
                plan(&mut out, save("user", text.as_str(), "telegram"));
                match outcome {
                    Outcome::Answer(response) => {
                        plan(&mut out, save("assistant", response.as_str(), "system"));
                        if server {
                            plan(
                                &mut out,
                                activity(
                                    "telegram",
                                    slot,
                                    "assistant_message",
                                    response.as_str(),
                                ),
                            );
                        }
                        plan_alerts(&mut out, alerts, *target, slot, server);
                        plan(&mut out, send(*target, response.as_str()));
                        self.count_turn(&mut out);
                    },
                    Outcome::Failure(error) => {
                        if has_session {
                            self.turn_count = 0;
                            plan(&mut out, Action::ResetSession);
                        }
                        let note = cat2("Error: ", error.as_str());
                        plan(&mut out, send(*target, note.as_str()));
                    },
                }
            },
            CoordinatorJob::TuiChat { text, ws_name } => {
                let ws = ws_name.as_str();
                plan(&mut out, save("user", text.as_str(), "tui"));
                match outcome {
                    Outcome::Answer(response) => {
                        plan(&mut out, save("assistant", response.as_str(), "system"));
                        plan(&mut out, done(ws));
                        if server {
                            plan(
                                &mut out,
                                activity("tui", ws, "assistant_message", response.as_str()),
                            );
                        }
                        self.count_turn(&mut out);
                    },
                    Outcome::Failure(error) => {
                        if has_session {
                            self.turn_count = 0;
                            plan(&mut out, Action::ResetSession);
                        }
                        plan(&mut out, failure(ws, error.as_str()));
                    },
                }
            },
            CoordinatorJob::ResetSession => {},
            CoordinatorJob::Compact { telegram, tui, slot_name } => {},
            CoordinatorJob::SignalFollowThrough {
                signals,
                source,
                prompt_override,
                ttl_secs,
                telegram,
                slot_name,
            } => {
                if let Outcome::Answer(response) = outcome {
                    let answer = trimmed(response.as_str());
                    let lower = lowered(answer.as_str());
                    if worth_telling(answer.as_str(), lower.as_str()) {
                        if let Some(target) = telegram {
                            plan(&mut out, send(*target, answer.as_str()));
                        }
                        if server {
                            plan(
                                &mut out,
                                activity(
                                    "signal",
                                    slot_name.as_str(),
                                    "assistant_message",
                                    answer.as_str(),
                                ),
                            );
                        }
                    }
                }
                plan(&mut out, Action::SetMaxTurns(saved_turns));
            },
        }
        proof {
            let expected = match outcome {
                Outcome::Answer(text) => answer_acts(
                    job@,
                    text@,
                    texts(alerts@),
                    old(self).turn_count as int,
                    old(self).max_session_turns,
                    saved_turns,
                    old(self).server,
                ),
                Outcome::Failure(error) => failure_acts(job@, error@, has_session, saved_turns),
            };
            assert(acts(out@) =~= expected);
        }
        out
    }
}

// ---------------------------------------------------------------------------
// Laws
// ---------------------------------------------------------------------------

/// The count of turns after `answered` answers in a row, from a fresh session.
pub open spec fn turns_in_a_row(limit: u32, answered: nat) -> int
    decreases answered,
{
    if answered == 0 {
        0
    } else {
        next_turns(limit, turns_in_a_row(limit, (answered - 1) as nat))
    }
}

/// Answers in a row compact the session exactly at every multiple of the limit
/// on turns, and never where there is no limit.
pub proof fn law_compacts_at_the_limit(limit: u32, answered: nat)
    ensures
        limit > 0 ==> turns_in_a_row(limit, answered) == answered as int % limit as int,
        limit == 0 ==> turns_in_a_row(limit, answered) == answered,
    decreases answered,
{
    if answered > 0 {
        let before = (answered - 1) as nat;
        law_compacts_at_the_limit(limit, before);
        if limit > 0 {
            let l = limit as int;
            let b = before as int;
            vstd::arithmetic::div_mod::lemma_fundamental_div_mod(b, l);
            vstd::arithmetic::div_mod::lemma_mod_bound(b, l);
            if b % l + 1 == l {
                assert(answered as int == l * (b / l + 1)) by (nonlinear_arith)
                    requires
                        b == l * (b / l) + b % l,
                        b % l + 1 == l,
                        answered as int == b + 1,
                ;
                vstd::arithmetic::div_mod::lemma_mod_multiples_basic(b / l + 1, l);
                assert(l * (b / l + 1) == (b / l + 1) * l) by (nonlinear_arith);
            } else {
                assert(l * (b / l) == (b / l) * l) by (nonlinear_arith);
                vstd::arithmetic::div_mod::lemma_fundamental_div_mod_converse(
                    answered as int,
                    l,
                    b / l,
                    b % l + 1,
                );
            }
        }
    }
}

/// A follow-through that has waited out its time, or that finds no session to
/// follow up on, does nothing at all.
pub proof fn law_stale_follow_through_is_dropped(
    job: Job,
    has_session: bool,
    elapsed: u64,
    server: bool,
)
    requires
        job is SignalFollowThrough,
        elapsed >= job->SignalFollowThrough_3 || !has_session,
    ensures
        begin_acts(job, has_session, elapsed, server).len() == 0,
{
}

/// Whatever comes of a follow-through that has started, the number of turns
/// that the coordinator is allowed is put back at the end.
pub proof fn law_follow_through_restores_turns(
    job: Job,
    outcome: Outcome,
    alerts: Seq<Seq<char>>,
    turns: int,
    limit: u32,
    has_session: bool,
    saved_turns: u32,
    server: bool,
    error: Seq<char>,
)
    requires
        job is SignalFollowThrough,
    ensures
        match outcome {
            Outcome::Answer(text) => answer_acts(
                job,
                text@,
                alerts,
                turns,
                limit,
                saved_turns,
                server,
            ).last() == Act::SetMaxTurns(saved_turns),
            Outcome::Failure(e) => failure_acts(job, e@, has_session, saved_turns).last()
                == Act::SetMaxTurns(saved_turns),
        },
        unprepared_acts(job, error, saved_turns).last() == Act::SetMaxTurns(saved_turns),
{
}

/// A job that the coordinator has worked on with success: what it found when
/// the job arrived, and what it answered.
pub struct Handled {
    pub job: Job,
    pub has_session: bool,
    pub elapsed: u64,
    pub response: Seq<char>,
    pub alerts: Seq<Seq<char>>,
    pub saved_turns: u32,
}

/// What is done for a job that succeeds, in a session that has had `turns`
/// turns before. A follow-through that is dropped asks nothing.
pub open spec fn handled_acts(h: Handled, turns: int, limit: u32, server: bool) -> Seq<Act> {
    let start = begin_acts(h.job, h.has_session, h.elapsed, server);
    if h.job is SignalFollowThrough && start.len() == 0 {
        start
    } else {
        start + answer_acts(
            h.job,
            h.response,
            h.alerts,
            turns,
            limit,
            h.saved_turns,
            server,
        )
    }
}

/// The count of turns after jobs that succeed, handled one after the other
/// from a fresh session.
pub open spec fn turns_after_jobs(jobs: Seq<Handled>, limit: u32) -> int
    decreases jobs.len(),
{
    if jobs.len() == 0 {
        0
    } else {
        let turns = turns_after_jobs(jobs.drop_last(), limit);
        let job = jobs.last().job;
        if job is ResetSession || job is Compact {
            0
        } else if is_user_message(job) {
            next_turns(limit, turns)
        } else {
            turns
        }
    }
}

/// Whether the last of the jobs resets the session.
pub open spec fn last_resets(jobs: Seq<Handled>, limit: u32, server: bool) -> bool {
    handled_acts(
        jobs.last(),
        turns_after_jobs(jobs.drop_last(), limit),
        limit,
        server,
    ).contains(Act::ResetSession)
}

/// How many users' messages have been answered since the session was reset
/// last, for whatever reason.
pub open spec fn answered_since_reset(jobs: Seq<Handled>, limit: u32, server: bool) -> int
    decreases jobs.len(),
{
    if jobs.len() == 0 || last_resets(jobs, limit, server) {
        0
    } else {
        answered_since_reset(jobs.drop_last(), limit, server) + if is_user_message(
            jobs.last().job,
        ) {
            1int
        } else {
            0
        }
    }
}

proof fn lemma_contains_either(a: Seq<Act>, b: Seq<Act>, x: Act)
    ensures
        (a + b).contains(x) == (a.contains(x) || b.contains(x)),
{
    let c = a + b;
    if a.contains(x) {
        let i = choose|i: int| 0 <= i < a.len() && a[i] == x;
        assert(c[i] == x);
    }
    if b.contains(x) {
        let i = choose|i: int| 0 <= i < b.len() && b[i] == x;
        assert(c[a.len() + i] == x);
    }
    if c.contains(x) {
        let i = choose|i: int| 0 <= i < c.len() && c[i] == x;
        if i < a.len() {
            assert(a[i] == x);
        } else {
            assert(b[i - a.len()] == x);
        }
    }
}

proof fn lemma_alerts_keep_session(
    alerts: Seq<Seq<char>>,
    target: crate::action::ChatTarget,
    slot: Seq<char>,
    server: bool,
)
    ensures
        !alert_acts(alerts, target, slot, server).contains(Act::ResetSession),
    decreases alerts.len(),
{
    if alerts.len() > 0 {
        let x = Act::ResetSession;
        lemma_alerts_keep_session(alerts.drop_last(), target, slot, server);
        let a = alert_acts(alerts.drop_last(), target, slot, server);
        let b = seq![Act::Send(target, alerts.last())];
        let c = only_if(
            server,
            Act::Reply(Response::Activity("system"@, slot, "safety_alert"@, alerts.last())),
        );
        lemma_contains_either(a, b, x);
        lemma_contains_either(a + b, c, x);
    }
}

proof fn lemma_answer_resets(
    job: Job,
    response: Seq<char>,
    alerts: Seq<Seq<char>>,
    turns: int,
    limit: u32,
    saved_turns: u32,
    server: bool,
)
    ensures
        answer_acts(job, response, alerts, turns, limit, saved_turns, server).contains(
            Act::ResetSession,
        ) == (is_user_message(job) && is_due(limit, turns + 1)),
{
    let x = Act::ResetSession;
    let reset = only_if(is_due(limit, turns + 1), x);
    if is_due(limit, turns + 1) {
        assert(reset[0] == x);
    }
    match job {
        Job::TelegramMessage(text, target, message_id, slot) => {
            let a = seq![
                Act::StopTyping,
                Act::Save("user"@, text, "telegram"@),
                Act::Save("assistant"@, response, "system"@),
            ];
            let b = only_if(
                server,
                Act::Reply(Response::Activity("telegram"@, slot, "assistant_message"@, response)),
            );
            let c = alert_acts(alerts, target, slot, server);
            let d = seq![Act::Send(target, response)];
            lemma_alerts_keep_session(alerts, target, slot, server);
            lemma_contains_either(a, b, x);
            lemma_contains_either(a + b, c, x);
            lemma_contains_either(a + b + c, d, x);
            lemma_contains_either(a + b + c + d, reset, x);
        },
        Job::TuiChat(text, ws) => {
            let a = seq![
                Act::Save("user"@, text, "tui"@),
                Act::Save("assistant"@, response, "system"@),
                Act::Reply(Response::Done(ws)),
            ];
            let b = only_if(
                server,
                Act::Reply(Response::Activity("tui"@, ws, "assistant_message"@, response)),
            );
            lemma_contains_either(a, b, x);
            lemma_contains_either(a + b, reset, x);
        },
        _ => {},
    }
}

/// Of jobs that succeed, handled one after the other: a user's message resets
/// the session exactly where it is the one that fills the limit, counted since
/// the last reset of any kind, and never where there is no limit. Following up
/// on signals neither resets nor counts. Resetting and compacting reset it and
/// start the count anew.
pub proof fn law_resets_at_every_limit(jobs: Seq<Handled>, limit: u32, server: bool)
    ensures
        turns_after_jobs(jobs, limit) == answered_since_reset(jobs, limit, server),
        0 <= answered_since_reset(jobs, limit, server),
        limit > 0 ==> answered_since_reset(jobs, limit, server) < limit,
        jobs.len() > 0 ==> ({
            let job = jobs.last().job;
            let before = answered_since_reset(jobs.drop_last(), limit, server);
            last_resets(jobs, limit, server) == if is_user_message(job) {
                limit > 0 && before + 1 == limit
            } else {
                job is ResetSession || job is Compact
            }
        }),
    decreases jobs.len(),
{
    if jobs.len() > 0 {
        law_resets_at_every_limit(jobs.drop_last(), limit, server);
        let h = jobs.last();
        let turns = turns_after_jobs(jobs.drop_last(), limit);
        let x = Act::ResetSession;
        let start = begin_acts(h.job, h.has_session, h.elapsed, server);
        let end = answer_acts(
            h.job,
            h.response,
            h.alerts,
            turns,
            limit,
            h.saved_turns,
            server,
        );
        lemma_contains_either(start, end, x);
        lemma_answer_resets(
            h.job,
            h.response,
            h.alerts,
            turns,
            limit,
            h.saved_turns,
            server,
        );
        if h.job is Compact || h.job is ResetSession {
            assert(start[0] == x);
        }
    }
}

/// What the coordinator says about signals that it was told of reaches the
/// chat of the workspace once, without white space around it, and every
/// terminal client where clients are served. Nothing and a mere acknowledgement
/// reach nobody.
pub proof fn law_follow_through_answer_is_sent(
    signals: Seq<Seq<char>>,
    source: Seq<char>,
    template: Option<Seq<char>>,
    ttl: u64,
    telegram: Option<crate::action::ChatTarget>,
    slot: Seq<char>,
    response: Seq<char>,
    alerts: Seq<Seq<char>>,
    turns: int,
    limit: u32,
    saved_turns: u32,
    server: bool,
)
    ensures
        ({
            let job = Job::SignalFollowThrough(signals, source, template, ttl, telegram, slot);
            let done = answer_acts(job, response, alerts, turns, limit, saved_turns, server);
            let told = trim(response).len() > 0 && lowercase(trim(response)) != "ack"@;
            let shown = Act::Reply(
                Response::Activity("signal"@, slot, "assistant_message"@, trim(response)),
            );
            &&& telegram is Some && told ==> done[0] == Act::Send(telegram->0, trim(response))
            &&& forall|i: int|
                0 <= i < done.len() && (#[trigger] done[i]) is Send ==> telegram is Some && told
                    && i == 0
            &&& server && told ==> done.contains(shown)
            &&& forall|i: int|
                0 <= i < done.len() && (#[trigger] done[i]) is Reply ==> server && told && done[i]
                    == shown
            &&& done.last() == Act::SetMaxTurns(saved_turns)
            &&& done.len() == 1 + (if told && telegram is Some {
                1int
            } else {
                0
            }) + (if told && server {
                1int
            } else {
                0
            })
        }),
{
    let job = Job::SignalFollowThrough(signals, source, template, ttl, telegram, slot);
    let done = answer_acts(job, response, alerts, turns, limit, saved_turns, server);
    let shown = Act::Reply(
        Response::Activity("signal"@, slot, "assistant_message"@, trim(response)),
    );
    if server && trim(response).len() > 0 && lowercase(trim(response)) != "ack"@ {
        assert(done[done.len() - 2] == shown);
    }
}

/// A follow-through that is still fresh and finds a session is put to the
/// coordinator, which may take three turns for it.
pub proof fn law_fresh_follow_through_is_worked_on(
    job: Job,
    has_session: bool,
    elapsed: u64,
    server: bool,
)
    requires
        job is SignalFollowThrough,
        elapsed < job->SignalFollowThrough_3,
        has_session,
    ensures
        begin_acts(job, has_session, elapsed, server) == seq![Act::SetMaxTurns(3), Act::Prepare],
{
}

proof fn lemma_alerts_are_sent(
    alerts: Seq<Seq<char>>,
    target: crate::action::ChatTarget,
    slot: Seq<char>,
    server: bool,
)
    ensures
        forall|k: int|
            0 <= k < alerts.len() ==> alert_acts(alerts, target, slot, server).contains(
                Act::Send(target, #[trigger] alerts[k]),
            ),
        forall|i: int|
            0 <= i < alert_acts(alerts, target, slot, server).len() ==> {
                let act = #[trigger] alert_acts(alerts, target, slot, server)[i];
                ||| act is Send && act->Send_0 == target && alerts.contains(act->Send_1)
                ||| server && exists|k: int|
                    0 <= k < alerts.len() && act == Act::Reply(
                        Response::Activity(
                            "system"@,
                            slot,
                            "safety_alert"@,
                            #[trigger] alerts[k],
                        ),
                    )
            },
    decreases alerts.len(),
{
    if alerts.len() > 0 {
        let front = alerts.drop_last();
        let before = alert_acts(front, target, slot, server);
        let all = alert_acts(alerts, target, slot, server);
        lemma_alerts_are_sent(front, target, slot, server);
        let last = alerts.len() - 1;
        assert(all[before.len() as int] == Act::Send(target, alerts[last]));
        assert forall|k: int| 0 <= k < alerts.len() implies all.contains(
            Act::Send(target, #[trigger] alerts[k]),
        ) by {
            if k < last {
                assert(front[k] == alerts[k]);
                assert(before.contains(Act::Send(target, front[k])));
                let i = choose|i: int|
                    0 <= i < before.len() && before[i] == Act::Send(target, front[k]);
                assert(all[i] == before[i]);
            }
        }
        assert forall|i: int| 0 <= i < all.len() implies {
            let act = #[trigger] all[i];
            ||| act is Send && act->Send_0 == target && alerts.contains(act->Send_1)
            ||| server && exists|k: int|
                0 <= k < alerts.len() && act == Act::Reply(
                    Response::Activity("system"@, slot, "safety_alert"@, #[trigger] alerts[k]),
                )
        } by {
            if i < before.len() {
                let act = before[i];
                assert(all[i] == act);
                if act is Send && front.contains(act->Send_1) {
                    let k = choose|k: int| 0 <= k < front.len() && front[k] == act->Send_1;
                    assert(alerts[k] == act->Send_1);
                } else {
                    let k = choose|k: int|
                        0 <= k < front.len() && act == Act::Reply(
                            Response::Activity(
                                "system"@,
                                slot,
                                "safety_alert"@,
                                #[trigger] front[k],
                            ),
                        );
                    assert(alerts[k] == front[k]);
                }
            } else if i == before.len() {
                assert(alerts[last] == all[i]->Send_1);
            } else {
                assert(all[i] == Act::Reply(
                    Response::Activity("system"@, slot, "safety_alert"@, alerts[last]),
                ));
            }
        }
    }
}

/// A user who writes on Telegram sees that the message was noticed, and is
/// answered in the chat that it came from. Both sides of the talk are kept.
/// Each alert goes to the same chat, and nothing is sent anywhere else.
pub proof fn law_telegram_message_is_answered(
    text: Seq<char>,
    target: crate::action::ChatTarget,
    message_id: i64,
    slot: Seq<char>,
    response: Seq<char>,
    alerts: Seq<Seq<char>>,
    has_session: bool,
    elapsed: u64,
    turns: int,
    limit: u32,
    saved_turns: u32,
    server: bool,
)
    ensures
        ({
            let job = Job::TelegramMessage(text, target, message_id, slot);
            let start = begin_acts(job, has_session, elapsed, server);
            let done = answer_acts(job, response, alerts, turns, limit, saved_turns, server);
            &&& start.contains(Act::React(target.chat_id, message_id, "👀"@))
            &&& start.contains(Act::StartTyping(target))
            &&& start.last() == Act::Prepare
            &&& prompt_of(job) == Some(text)
            &&& done[0] == Act::StopTyping
            &&& done.contains(Act::Save("user"@, text, "telegram"@))
            &&& done.contains(Act::Save("assistant"@, response, "system"@))
            &&& done.contains(Act::Send(target, response))
            &&& forall|k: int|
                0 <= k < alerts.len() ==> done.contains(Act::Send(target, #[trigger] alerts[k]))
            &&& forall|i: int|
                0 <= i < done.len() && (#[trigger] done[i]) is Send ==> done[i]->Send_0 == target
                    && (done[i]->Send_1 == response || alerts.contains(done[i]->Send_1))
            &&& server ==> done.contains(
                Act::Reply(
                    Response::Activity("telegram"@, slot, "assistant_message"@, response),
                ),
            )
            &&& !server ==> forall|i: int|
                0 <= i < done.len() ==> !((#[trigger] done[i]) is Reply)
        }),
{
    let job = Job::TelegramMessage(text, target, message_id, slot);
    let start = begin_acts(job, has_session, elapsed, server);
    let done = answer_acts(job, response, alerts, turns, limit, saved_turns, server);
    let a = seq![
        Act::StopTyping,
        Act::Save("user"@, text, "telegram"@),
        Act::Save("assistant"@, response, "system"@),
    ];
    let b = only_if(
        server,
        Act::Reply(Response::Activity("telegram"@, slot, "assistant_message"@, response)),
    );
    let c = alert_acts(alerts, target, slot, server);
    let d = seq![Act::Send(target, response)];
    let e = only_if(is_due(limit, turns + 1), Act::ResetSession);
    lemma_alerts_are_sent(alerts, target, slot, server);
    assert(done == a + b + c + d + e);
    assert(start[0] == Act::React(target.chat_id, message_id, "👀"@));
    assert(start[1] == Act::StartTyping(target));
    assert(done[1] == Act::Save("user"@, text, "telegram"@));
    assert(done[2] == Act::Save("assistant"@, response, "system"@));
    assert(done[(a + b + c).len() as int] == Act::Send(target, response));
    if server {
        assert(done[3] == b[0]);
    }
    assert forall|k: int| 0 <= k < alerts.len() implies done.contains(
        Act::Send(target, #[trigger] alerts[k]),
    ) by {
        assert(c.contains(Act::Send(target, alerts[k])));
        let i = choose|i: int| 0 <= i < c.len() && c[i] == Act::Send(target, alerts[k]);
        assert(done[(a + b).len() + i] == c[i]);
    }
    assert forall|i: int| 0 <= i < done.len() && (#[trigger] done[i]) is Send implies
        done[i]->Send_0 == target && (done[i]->Send_1 == response || alerts.contains(
        done[i]->Send_1,
    )) by {
        let from = (a + b).len() as int;
        if from <= i < from + c.len() {
            assert(done[i] == c[i - from]);
        }
    }
    if !server {
        assert forall|i: int| 0 <= i < done.len() implies !((#[trigger] done[i]) is Reply) by {
            let from = (a + b).len() as int;
            if from <= i < from + c.len() {
                assert(done[i] == c[i - from]);
            }
        }
    }
}

/// A user who writes in a terminal gets an answer there: it is brought to its
/// end once. Both sides of the talk are kept, and nothing goes to Telegram.
pub proof fn law_terminal_message_is_answered(
    text: Seq<char>,
    ws: Seq<char>,
    response: Seq<char>,
    alerts: Seq<Seq<char>>,
    has_session: bool,
    elapsed: u64,
    turns: int,
    limit: u32,
    saved_turns: u32,
    server: bool,
)
    ensures
        ({
            let job = Job::TuiChat(text, ws);
            let done = answer_acts(job, response, alerts, turns, limit, saved_turns, server);
            &&& begin_acts(job, has_session, elapsed, server) == seq![Act::Prepare]
            &&& prompt_of(job) == Some(text)
            &&& done.contains(Act::Save("user"@, text, "tui"@))
            &&& done.contains(Act::Save("assistant"@, response, "system"@))
            &&& done.contains(Act::Reply(Response::Done(ws)))
            &&& server == done.contains(
                Act::Reply(Response::Activity("tui"@, ws, "assistant_message"@, response)),
            )
            &&& forall|i: int| 0 <= i < done.len() ==> !((#[trigger] done[i]) is Send)
        }),
{
    let job = Job::TuiChat(text, ws);
    let done = answer_acts(job, response, alerts, turns, limit, saved_turns, server);
    let told = Act::Reply(Response::Activity("tui"@, ws, "assistant_message"@, response));
    assert(done[0] == Act::Save("user"@, text, "tui"@));
    assert(done[1] == Act::Save("assistant"@, response, "system"@));
    assert(done[2] == Act::Reply(Response::Done(ws)));
    if server {
        assert(done[3] == told);
    } else if done.contains(told) {
        let i = choose|i: int| 0 <= i < done.len() && done[i] == told;
        assert(i < 3 || done[i] == Act::ResetSession);
    }
}

/// A user whose message fails is told of the error where the message came
/// from, and the message is kept. The session is given up, and the count of
/// its turns starts anew, exactly where there was one. What follows up on
/// signals fails in silence.
pub proof fn law_failure_is_told(
    text: Seq<char>,
    target: crate::action::ChatTarget,
    message_id: i64,
    slot: Seq<char>,
    ws: Seq<char>,
    failed: Outcome,
    has_session: bool,
    saved_turns: u32,
    turns: int,
    limit: u32,
)
    requires
        failed is Failure,
    ensures
        ({
            let error = failed->Failure_0@;
            let job = Job::TelegramMessage(text, target, message_id, slot);
            let done = failure_acts(job, error, has_session, saved_turns);
            &&& done.last() == Act::Send(target, "Error: "@ + error)
            &&& done[0] == Act::StopTyping
            &&& done.contains(Act::Save("user"@, text, "telegram"@))
            &&& done.contains(Act::ResetSession) == has_session
            &&& turns_after(job, failed, has_session, turns, limit) == if has_session {
                0
            } else {
                turns
            }
            &&& unprepared_acts(job, error, saved_turns) == seq![Act::StopTyping]
        }),
        ({
            let error = failed->Failure_0@;
            let job = Job::TuiChat(text, ws);
            let done = failure_acts(job, error, has_session, saved_turns);
            &&& done.last() == Act::Reply(Response::Error(ws, error))
            &&& done.contains(Act::Save("user"@, text, "tui"@))
            &&& done.contains(Act::ResetSession) == has_session
            &&& turns_after(job, failed, has_session, turns, limit) == if has_session {
                0
            } else {
                turns
            }
            &&& unprepared_acts(job, error, saved_turns) == seq![
                Act::Reply(Response::Error(ws, error)),
            ]
        }),
        forall|job: Job|
            job is SignalFollowThrough ==> #[trigger] failure_acts(
                job,
                failed->Failure_0@,
                has_session,
                saved_turns,
            ) == seq![Act::SetMaxTurns(saved_turns)],
{
    let error = failed->Failure_0@;
    let x = Act::ResetSession;
    let telegram = failure_acts(
        Job::TelegramMessage(text, target, message_id, slot),
        error,
        has_session,
        saved_turns,
    );
    let tui = failure_acts(Job::TuiChat(text, ws), error, has_session, saved_turns);
    assert(telegram[1] == Act::Save("user"@, text, "telegram"@));
    assert(tui[0] == Act::Save("user"@, text, "tui"@));
    if has_session {
        assert(telegram[2] == x);
        assert(tui[1] == x);
    } else {
        if telegram.contains(x) {
            let i = choose|i: int| 0 <= i < telegram.len() && telegram[i] == x;
            assert(0 <= i < 3);
        }
        if tui.contains(x) {
            let i = choose|i: int| 0 <= i < tui.len() && tui[i] == x;
            assert(0 <= i < 2);
        }
    }
}

/// Compacting forgets the session first, and then says so: in the chat that it
/// was asked in, or to the terminal client that asked, which is told that this
/// was all.
pub proof fn law_compacting_is_told(
    telegram: Option<crate::action::ChatTarget>,
    tui: bool,
    slot: Seq<char>,
    has_session: bool,
    elapsed: u64,
    server: bool,
)
    ensures
        ({
            let done = begin_acts(Job::Compact(telegram, tui, slot), has_session, elapsed, server);
            let note = "\u{1f5dc}\u{fe0f} Session compacted. Starting fresh."@;
            &&& done[0] == Act::ResetSession
            &&& telegram is Some ==> done.contains(Act::Send(telegram->0, note))
            &&& telegram is None ==> forall|i: int|
                0 <= i < done.len() ==> !((#[trigger] done[i]) is Send)
            &&& tui ==> {
                &&& done[done.len() - 2] == Act::Reply(Response::Token(slot, note))
                &&& done.last() == Act::Reply(Response::Done(slot))
            }
            &&& server ==> done.contains(
                Act::Reply(Response::Activity("system"@, slot, "assistant_message"@, note)),
            )
        }),
        begin_acts(Job::ResetSession, has_session, elapsed, server) == seq![Act::ResetSession],
{
    let done = begin_acts(Job::Compact(telegram, tui, slot), has_session, elapsed, server);
    let note = "\u{1f5dc}\u{fe0f} Session compacted. Starting fresh."@;
    if telegram is Some {
        let k = if server {
            2int
        } else {
            1
        };
        assert(done[k] == Act::Send(telegram->0, note));
    }
    if server {
        assert(done[1] == Act::Reply(
            Response::Activity("system"@, slot, "assistant_message"@, note),
        ));
    }
}

/// A warning names the command and what it matched, or each file that was
/// changed; a part of an answer is none.
pub proof fn law_warnings_tell_what_happened(event: CoordinatorEvent, k: int)
    ensures
        event is Token ==> warning_of(event) is None,
        event is BashAudit ==> warning_of(event) == Some(
            "Bash audit ("@ + event->matched_pattern@ + "): "@ + event->command@,
        ),
        event is FilesModified ==> warning_of(event) is Some && starts_with(
            warning_of(event)->0,
            "Warning: coordinator modified workspace files:\n"@,
        ),
        event is FilesModified && 0 <= k < event->files@.len() ==> contains(
            warning_of(event)->0,
            "  - "@ + (event->files@[k]).0@ + "/"@ + (event->files@[k]).1@,
        ),
{
    if event is FilesModified {
        let files = event->files@;
        let head = "Warning: coordinator modified workspace files:\n"@;
        let all = warning_of(event)->0;
        assert(all.subrange(0, head.len() as int) =~= head);
        if 0 <= k < files.len() {
            let list = file_lines(files);
            let x = "  - "@ + files[k].0@ + "/"@ + files[k].1@;
            assert(list[k] == x);
            lemma_join_holds(list, "\n"@, k);
            lemma_inside(head, join(list, "\n"@), seq![], x);
            assert(head + join(list, "\n"@) + seq![] =~= all);
        }
    }
}

/// The alert about changed files names each of them.
pub proof fn law_alert_names_every_file(files: Seq<(String, String)>, k: int)
    ensures
        starts_with(files_alert(files), "⚠️ Coordinator modified workspace files:\n"@),
        0 <= k < files.len() ==> contains(
            files_alert(files),
            "- `"@ + files[k].0@ + "/"@ + files[k].1@ + "`"@,
        ),
{
    let head = "⚠️ Coordinator modified workspace files:\n"@;
    let all = files_alert(files);
    assert(all.subrange(0, head.len() as int) =~= head);
    if 0 <= k < files.len() {
        let list = file_bullets(files);
        let x = "- `"@ + files[k].0@ + "/"@ + files[k].1@ + "`"@;
        assert(list[k] == x);
        lemma_join_holds(list, "\n"@, k);
        lemma_inside(head, join(list, "\n"@), seq![], x);
        assert(head + join(list, "\n"@) + seq![] =~= all);
    }
}

/// The turns of a session count the messages of users that were answered, start
/// anew at the limit and after a failure in a session, and no other job counts.
pub proof fn law_turns_count_answers(
    job: Job,
    text: String,
    has_session: bool,
    turns: int,
    limit: u32,
)
    requires
        0 <= turns,
    ensures
        job is TelegramMessage || job is TuiChat ==> {
            &&& limit > 0 && turns + 1 >= limit ==> turns_after(
                job,
                Outcome::Answer(text),
                has_session,
                turns,
                limit,
            ) == 0
            &&& limit == 0 || turns + 1 < limit ==> turns_after(
                job,
                Outcome::Answer(text),
                has_session,
                turns,
                limit,
            ) == turns + 1
            &&& turns_after(job, Outcome::Failure(text), true, turns, limit) == 0
            &&& turns_after(job, Outcome::Failure(text), false, turns, limit) == turns
        },
        job is SignalFollowThrough || job is Compact || job is ResetSession ==> turns_after(
            job,
            Outcome::Answer(text),
            has_session,
            turns,
            limit,
        ) == turns && turns_after(job, Outcome::Failure(text), has_session, turns, limit) == turns,
{
}

} // verus!
