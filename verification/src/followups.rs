//! What bots have set themselves to do later.

use vstd::prelude::*;

verus! {

/// A follow-up as it is stored.
pub struct Followup {
    pub id: String,
    pub bot: String,
    pub action: String,
    pub created_at: String,
    pub fires_at: String,
    pub status: String,
}

/// A follow-up as the web interface shows it.
pub struct FollowupView {
    pub id: String,
    pub workspace: String,
    pub bot: String,
    pub action: String,
    pub created_at: String,
    pub fires_at: String,
    pub status: String,
}

/// Whether `view` shows a follow-up.
pub open spec fn shows_followup(view: FollowupView, f: Followup, workspace: Seq<char>) -> bool {
    &&& view.id@ == f.id@
    &&& view.workspace@ == workspace
    &&& view.bot@ == f.bot@
    &&& view.action@ == f.action@
    &&& view.created_at@ == f.created_at@
    &&& view.fires_at@ == f.fires_at@
    &&& view.status@ == f.status@
}

/// The follow-ups of a workspace.
pub fn followup_views(list: &Vec<Followup>, workspace: &str) -> (r: Vec<FollowupView>)
    ensures
        r@.len() == list@.len(),
        forall|i: int|
            0 <= i < r@.len() ==> shows_followup(#[trigger] r@[i], list@[i], workspace@),
{
    let mut out: Vec<FollowupView> = Vec::new();
    let n: usize = list.len();
    let mut i: usize = 0;
    while i < n
        invariant
            n == list@.len(),
            0 <= i <= n,
            out@.len() == i,
            forall|j: int|
                0 <= j < i ==> shows_followup(#[trigger] out@[j], list@[j], workspace@),
        decreases n - i,
    {
        let f = &list[i];
        out.push(
            FollowupView {
                id: f.id.clone(),
                workspace: workspace.to_owned(),
                bot: f.bot.clone(),
                action: f.action.clone(),
                created_at: f.created_at.clone(),
                fires_at: f.fires_at.clone(),
                status: f.status.clone(),
            },
        );
        i = i + 1;
    }
    out
}

/// News that a follow-up was cancelled.
pub struct FollowupCancelled {
    pub id: String,
    pub workspace: String,
    pub bot: String,
    pub action: String,
    pub fires_at: String,
    pub status: String,
}

/// Whether `news` tell that a follow-up was cancelled.
pub open spec fn tells_cancelled(
    news: FollowupCancelled,
    f: Followup,
    workspace: Seq<char>,
) -> bool {
    &&& news.id@ == f.id@
    &&& news.workspace@ == workspace
    &&& news.bot@ == f.bot@
    &&& news.action@ == f.action@
    &&& news.fires_at@ == f.fires_at@
    &&& news.status@ == "cancelled"@
}

/// The news of a cancelled follow-up: where the store has changed something,
/// and the follow-up was known before.
pub fn cancelled_followup(changed: bool, followup: &Option<Followup>, workspace: &str) -> (r: Option<
    FollowupCancelled,
>)
    ensures
        r is Some <==> changed && followup is Some,
        r matches Some(news) ==> tells_cancelled(news, followup->0, workspace@),
{
    if !changed {
        return None;
    }
    match followup {
        Some(f) => Some(
            FollowupCancelled {
                id: f.id.clone(),
                workspace: workspace.to_owned(),
                bot: f.bot.clone(),
                action: f.action.clone(),
                fires_at: f.fires_at.clone(),
                status: "cancelled".to_owned(),
            },
        ),
        None => None,
    }
}

/// A follow-up is shown under its workspace as it is kept.
pub proof fn law_shown_followup(view: FollowupView, f: Followup, workspace: Seq<char>)
    requires
        shows_followup(view, f, workspace),
    ensures
        view.workspace@ == workspace,
        view.id@ == f.id@ && view.bot@ == f.bot@ && view.action@ == f.action@,
        view.created_at@ == f.created_at@ && view.fires_at@ == f.fires_at@,
        view.status@ == f.status@,
{
}

/// Whoever is told of a cancelled follow-up learns which it was, and that it is
/// cancelled.
pub proof fn law_cancelled_followup_is_named(
    news: FollowupCancelled,
    f: Followup,
    workspace: Seq<char>,
)
    requires
        tells_cancelled(news, f, workspace),
    ensures
        news.status@ == "cancelled"@,
        news.id@ == f.id@ && news.workspace@ == workspace,
        news.bot@ == f.bot@ && news.action@ == f.action@ && news.fires_at@ == f.fires_at@,
{
}

} // verus!
