//! Articles that users post, vote for and sort into groups.
//!
//! The feature has store operations of its own, [`ArticleOp`]; the caller
//! performs them as it performs the commands and queries of the rest of the
//! library, and hands back the reply where a step asks for one.

use vstd::prelude::*;
use vstd::string::*;
use crate::keys::prefixed;
use crate::text::{decimal, signed_decimal, signed_text, unsigned_text};

verus! {

/// For how long an article can be voted for, in seconds.
pub const ONE_WEEK_IN_SECONDS: u64 = 604800;

/// What one vote adds to the score of an article.
pub const VOTE_SCORE: i64 = 432;

/// How many articles a page of a listing holds.
pub const ARTICLES_PER_PAGE: i64 = 25;

/// For how long the listing of a group is kept, in seconds.
pub const GROUP_SECONDS: u64 = 60;

/// An article as the store has it: fields by name, with the field `id` last.
pub type Article = Vec<(String, String)>;

/// A store operation of the article feature.
#[derive(Debug, Clone)]
pub enum ArticleOp {
    /// Add 1 to the counter at `key`; the reply is its new value.
    Increment { key: String },
    /// Put `member` into the set at `key`; the reply says whether it was new.
    SetAdd { key: String, member: String },
    /// Take `member` out of the set at `key`.
    SetRemove { key: String, member: String },
    /// Let `key` expire after `seconds`.
    Expire { key: String, seconds: u64 },
    /// Set the given fields of the hash at `key`.
    HashSetAll { key: String, fields: Vec<(String, String)> },
    /// Add `delta` to the number in `field` of the hash at `key`.
    HashIncrement { key: String, field: String, delta: i64 },
    /// The fields of the hash at `key`.
    HashGetAll { key: String },
    /// Put `member` into the ordered set at `key` with `score`.
    SortedAdd { key: String, member: String, score: i64 },
    /// Add `delta` to the score of `member` in the ordered set at `key`.
    SortedIncrement { key: String, member: String, delta: i64 },
    /// The score of `member` in the ordered set at `key`.
    SortedScore { key: String, member: String },
    /// The members of the ordered set at `key` with rank in `start..=stop`,
    /// counted from the highest score down.
    SortedRangeDescending { key: String, start: i64, stop: i64 },
    /// Store at `target` the members that all of `sources` have, each with
    /// the highest of its scores.
    IntersectMax { target: String, sources: Vec<String> },
    /// Whether `key` exists.
    Exists { key: String },
}

/// What an [`ArticleOp`] says, over mathematical strings.
pub enum ArticleOpView {
    Increment { key: Seq<char> },
    SetAdd { key: Seq<char>, member: Seq<char> },
    SetRemove { key: Seq<char>, member: Seq<char> },
    Expire { key: Seq<char>, seconds: nat },
    HashSetAll { key: Seq<char>, fields: Seq<(Seq<char>, Seq<char>)> },
    HashIncrement { key: Seq<char>, field: Seq<char>, delta: int },
    HashGetAll { key: Seq<char> },
    SortedAdd { key: Seq<char>, member: Seq<char>, score: int },
    SortedIncrement { key: Seq<char>, member: Seq<char>, delta: int },
    SortedScore { key: Seq<char>, member: Seq<char> },
    SortedRangeDescending { key: Seq<char>, start: int, stop: int },
    IntersectMax { target: Seq<char>, sources: Seq<Seq<char>> },
    Exists { key: Seq<char> },
}

/// The views of a list of fields, in order.
pub open spec fn pairs_view(fields: Seq<(String, String)>) -> Seq<(Seq<char>, Seq<char>)> {
    Seq::new(fields.len(), |i: int| (fields[i].0@, fields[i].1@))
}

impl View for ArticleOp {
    type V = ArticleOpView;

    open spec fn view(&self) -> ArticleOpView {
        match *self {
            ArticleOp::Increment { key } => ArticleOpView::Increment { key: key@ },
            ArticleOp::SetAdd { key, member } => ArticleOpView::SetAdd { key: key@, member: member@ },
            ArticleOp::SetRemove { key, member } => ArticleOpView::SetRemove {
                key: key@,
                member: member@,
            },
            ArticleOp::Expire { key, seconds } => ArticleOpView::Expire {
                key: key@,
                seconds: seconds as nat,
            },
            ArticleOp::HashSetAll { key, fields } => ArticleOpView::HashSetAll {
                key: key@,
                fields: pairs_view(fields@),
            },
            ArticleOp::HashIncrement { key, field, delta } => ArticleOpView::HashIncrement {
                key: key@,
                field: field@,
                delta: delta as int,
            },
            ArticleOp::HashGetAll { key } => ArticleOpView::HashGetAll { key: key@ },
            ArticleOp::SortedAdd { key, member, score } => ArticleOpView::SortedAdd {
                key: key@,
                member: member@,
                score: score as int,
            },
            ArticleOp::SortedIncrement { key, member, delta } => ArticleOpView::SortedIncrement {
                key: key@,
                member: member@,
                delta: delta as int,
            },
            ArticleOp::SortedScore { key, member } => ArticleOpView::SortedScore {
                key: key@,
                member: member@,
            },
            ArticleOp::SortedRangeDescending { key, start, stop } => ArticleOpView::SortedRangeDescending {
                key: key@,
                start: start as int,
                stop: stop as int,
            },
            ArticleOp::IntersectMax { target, sources } => ArticleOpView::IntersectMax {
                target: target@,
                sources: sources.deep_view(),
            },
            ArticleOp::Exists { key } => ArticleOpView::Exists { key: key@ },
        }
    }
}

/// The views of the operations of a plan, in order.
pub open spec fn ops_view(plan: Seq<ArticleOp>) -> Seq<ArticleOpView> {
    Seq::new(plan.len(), |i: int| plan[i]@)
}

/// Where the last part of a name begins: after its last colon, or at its
/// start where it has none.
pub open spec fn last_part_start(name: Seq<char>) -> int
    decreases name.len(),
{
    if name.len() == 0 {
        0
    } else if name.last() == ':' {
        name.len() as int
    } else {
        last_part_start(name.drop_last())
    }
}

/// The number of an article: what follows the last colon of its name.
pub open spec fn article_number(article: Seq<char>) -> Seq<char> {
    article.skip(last_part_start(article))
}

/// The number of an article, read off its name.
pub fn article_id(article: &str) -> (number: String)
    ensures
        number@ == article_number(article@),
{
    let len = article.unicode_len();
    let mut start = len;
    assert(article@.take(len as int) =~= article@);
    while start > 0 && article.get_char(start - 1) != ':'
        invariant
            start <= len,
            len == article@.len(),
            last_part_start(article@) == last_part_start(article@.take(start as int)),
        decreases start,
    {
        assert(article@.take(start as int).drop_last() =~= article@.take(start as int - 1));
        start -= 1;
    }
    proof {
        if start > 0 {
            assert(article@.take(start as int).last() == ':');
        }
    }
    article.substring_char(start, len).to_owned()
}

/// Why a vote was not counted.
#[derive(Debug, Clone, Copy, PartialEq, Eq)]
pub enum VoteError {
    /// The article was posted more than a week ago.
    TooOld,
}

impl VoteError {
    /// The error in words.
    pub fn message(&self) -> (text: String)
        ensures
            text@ == "Cannot upvote posts created more than a week ago."@,
    {
        "Cannot upvote posts created more than a week ago.".to_owned()
    }
}

/// An event in the casting of one vote.
#[derive(Debug, Clone, Copy)]
pub enum VoteEvent {
    /// The vote has arrived.
    Arrived,
    /// The article was posted at `posted`, and it is `now` (both in
    /// milliseconds since the epoch).
    Posted { posted: i64, now: i64 },
    /// Whether the user was new among the voters of the article.
    Added(bool),
}

/// What the caller is asked to do next for the vote.
#[derive(Debug, Clone)]
pub enum VoteAction {
    /// Read when the article was posted, and the clock; hand both in as `Posted`.
    AskPosted(ArticleOp),
    /// Refuse the vote.
    Reject(VoteError),
    /// Put the user among the voters and hand in, as `Added`, whether the user was new.
    AddVoter(ArticleOp),
    /// Perform the operations in order; the vote is counted.
    Count(Vec<ArticleOp>),
    /// Nothing is left to do: the user had voted before.
    Done,
}

/// What a [`VoteAction`] says, over mathematical strings.
pub enum VoteActionView {
    AskPosted(ArticleOpView),
    Reject(VoteError),
    AddVoter(ArticleOpView),
    Count(Seq<ArticleOpView>),
    Done,
}

impl View for VoteAction {
    type V = VoteActionView;

    open spec fn view(&self) -> VoteActionView {
        match *self {
            VoteAction::AskPosted(op) => VoteActionView::AskPosted(op@),
            VoteAction::Reject(error) => VoteActionView::Reject(error),
            VoteAction::AddVoter(op) => VoteActionView::AddVoter(op@),
            VoteAction::Count(plan) => VoteActionView::Count(ops_view(plan@)),
            VoteAction::Done => VoteActionView::Done,
        }
    }
}

/// One step of casting the vote of `user` for `article`.
///
/// An article posted more than a week before now takes no vote. A user who
/// is new among the voters of an article adds `VOTE_SCORE` to its score and
/// one to its votes; one who voted before changes nothing.
pub open spec fn vote_step(user: Seq<char>, article: Seq<char>, event: VoteEvent) -> VoteActionView {
    match event {
        VoteEvent::Arrived => VoteActionView::AskPosted(
            ArticleOpView::SortedScore { key: "time:"@, member: article },
        ),
        VoteEvent::Posted { posted, now } => if posted < now - ONE_WEEK_IN_SECONDS * 1000 {
            VoteActionView::Reject(VoteError::TooOld)
        } else {
            VoteActionView::AddVoter(
                ArticleOpView::SetAdd { key: "voted:"@ + article_number(article), member: user },
            )
        },
        VoteEvent::Added(new) => if new {
            VoteActionView::Count(
                seq![
                    ArticleOpView::SortedIncrement {
                        key: "score:"@,
                        member: article,
                        delta: VOTE_SCORE as int,
                    },
                    ArticleOpView::HashIncrement { key: article, field: "votes"@, delta: 1 },
                ],
            )
        } else {
            VoteActionView::Done
        },
    }
}

/// One step of casting the vote of `user` for `article`.
pub fn article_vote(user: &str, article: &str, event: VoteEvent) -> (action: VoteAction)
    ensures
        action@ == vote_step(user@, article@, event),
{
    match event {
        VoteEvent::Arrived => VoteAction::AskPosted(
            ArticleOp::SortedScore { key: "time:".to_owned(), member: article.to_owned() },
        ),
        VoteEvent::Posted { posted, now } => {
            let cutoff: i128 = now as i128 - (ONE_WEEK_IN_SECONDS as i128) * 1000;
            if (posted as i128) < cutoff {
                VoteAction::Reject(VoteError::TooOld)
            } else {
                let number = article_id(article);
                VoteAction::AddVoter(
                    ArticleOp::SetAdd {
                        key: prefixed("voted:", number.as_str()),
                        member: user.to_owned(),
                    },
                )
            }
        },
        VoteEvent::Added(new) => {
            if new {
                let mut plan: Vec<ArticleOp> = Vec::new();
                plan.push(
                    ArticleOp::SortedIncrement {
                        key: "score:".to_owned(),
                        member: article.to_owned(),
                        delta: VOTE_SCORE,
                    },
                );
                plan.push(
                    ArticleOp::HashIncrement {
                        key: article.to_owned(),
                        field: "votes".to_owned(),
                        delta: 1,
                    },
                );
                assert(ops_view(plan@) =~= seq![plan[0]@, plan[1]@]);
                VoteAction::Count(plan)
            } else {
                VoteAction::Done
            }
        },
    }
}

/// The operation that draws the number of a new article.
pub fn next_article_number() -> (op: ArticleOp)
    ensures
        op@ == (ArticleOpView::Increment { key: "article:"@ }),
{
    ArticleOp::Increment { key: "article:".to_owned() }
}

/// The operations that publish the article with the number `number`, posted
/// by `user` at `now`: the poster is its first voter, its voters are kept for
/// a week, and it enters the orders by score and by time.
pub open spec fn post_plan(
    number: nat,
    user: Seq<char>,
    title: Seq<char>,
    link: Seq<char>,
    now: int,
) -> Seq<ArticleOpView> {
    let voted = "voted:"@ + decimal(number);
    let article = "article:"@ + decimal(number);
    seq![
        ArticleOpView::SetAdd { key: voted, member: user },
        ArticleOpView::Expire { key: voted, seconds: ONE_WEEK_IN_SECONDS as nat },
        ArticleOpView::HashSetAll {
            key: article,
            fields: seq![
                ("title"@, title),
                ("link"@, link),
                ("poster"@, user),
                ("time"@, signed_decimal(now)),
                ("votes"@, "1"@),
            ],
        },
        ArticleOpView::SortedAdd { key: "score:"@, member: article, score: now + VOTE_SCORE },
        ArticleOpView::SortedAdd { key: "time:"@, member: article, score: now },
    ]
}

/// Plans the publishing of an article under the number drawn for it, and
/// gives the number as text. `now` is the time in milliseconds since the
/// epoch; the score at which the article starts has to fit the clock.
pub fn post_article(number: u64, user: &str, title: &str, link: &str, now: i64) -> (posted: (
    String,
    Vec<ArticleOp>,
))
    requires
        now + VOTE_SCORE <= i64::MAX,
    ensures
        posted.0@ == decimal(number as nat),
        ops_view(posted.1@) == post_plan(number as nat, user@, title@, link@, now as int),
{
    let id = unsigned_text(number);
    let voted = prefixed("voted:", id.as_str());
    let article = prefixed("article:", id.as_str());
    let mut fields: Vec<(String, String)> = Vec::new();
    fields.push(("title".to_owned(), title.to_owned()));
    fields.push(("link".to_owned(), link.to_owned()));
    fields.push(("poster".to_owned(), user.to_owned()));
    fields.push(("time".to_owned(), signed_text(now)));
    fields.push(("votes".to_owned(), "1".to_owned()));
    assert(pairs_view(fields@) =~= seq![
        ("title"@, title@),
        ("link"@, link@),
        ("poster"@, user@),
        ("time"@, signed_decimal(now as int)),
        ("votes"@, "1"@),
    ]);
    let mut plan: Vec<ArticleOp> = Vec::new();
    plan.push(ArticleOp::SetAdd { key: voted.clone(), member: user.to_owned() });
    plan.push(ArticleOp::Expire { key: voted, seconds: ONE_WEEK_IN_SECONDS });
    plan.push(ArticleOp::HashSetAll { key: article.clone(), fields });
    plan.push(
        ArticleOp::SortedAdd { key: "score:".to_owned(), member: article.clone(), score: now + VOTE_SCORE },
    );
    plan.push(ArticleOp::SortedAdd { key: "time:".to_owned(), member: article, score: now });
    assert(ops_view(plan@) =~= post_plan(number as nat, user@, title@, link@, now as int));
    (id, plan)
}

/// The order in which articles are listed where none is asked for: by score.
pub open spec fn order_or_score(order: Option<Seq<char>>) -> Seq<char> {
    match order {
        Some(key) => key,
        None => "score:"@,
    }
}

/// The read of page `page` of the articles in `order`, highest first: pages
/// are counted from 1 and hold `ARTICLES_PER_PAGE` articles.
pub open spec fn listing(page: int, order: Option<Seq<char>>) -> ArticleOpView {
    ArticleOpView::SortedRangeDescending {
        key: order_or_score(order),
        start: (page - 1) * ARTICLES_PER_PAGE,
        stop: (page - 1) * ARTICLES_PER_PAGE + ARTICLES_PER_PAGE - 1,
    }
}

/// The read of page `page` of the articles in `order`. The ranks of the page
/// have to be numbers that the store can take.
pub fn get_articles(page: i64, order: Option<String>) -> (op: ArticleOp)
    requires
        i64::MIN <= (page - 1) * ARTICLES_PER_PAGE,
        (page - 1) * ARTICLES_PER_PAGE + ARTICLES_PER_PAGE - 1 <= i64::MAX,
    ensures
        op@ == listing(
            page as int,
            match order {
                Some(key) => Some(key@),
                None => None,
            },
        ),
{
    let start = (page - 1) * ARTICLES_PER_PAGE;
    let stop = start + ARTICLES_PER_PAGE - 1;
    let key = match order {
        Some(key) => key,
        None => "score:".to_owned(),
    };
    ArticleOp::SortedRangeDescending { key, start, stop }
}

/// The read of the fields of the article `id`.
pub fn article_fields(id: &str) -> (op: ArticleOp)
    ensures
        op@ == (ArticleOpView::HashGetAll { key: id@ }),
{
    ArticleOp::HashGetAll { key: id.to_owned() }
}

/// The article `id` with the fields that the store has for it: the fields,
/// then the field `id`.
pub fn article_of(id: String, fields: Vec<(String, String)>) -> (article: Article)
    ensures
        pairs_view(article@) == pairs_view(fields@).push(("id"@, id@)),
{
    let mut article = fields;
    article.push(("id".to_owned(), id));
    assert(pairs_view(article@) =~= pairs_view(fields@).push(("id"@, id@)));
    article
}

/// The operations that put an article into the groups `to_add` and take it
/// out of the groups `to_remove`, in that order.
pub open spec fn group_plan(
    number: Seq<char>,
    to_add: Seq<Seq<char>>,
    to_remove: Seq<Seq<char>>,
) -> Seq<ArticleOpView> {
    Seq::new(
        to_add.len(),
        |i: int| ArticleOpView::SetAdd { key: "group:"@ + to_add[i], member: "article:"@ + number },
    ) + Seq::new(
        to_remove.len(),
        |i: int|
            ArticleOpView::SetRemove { key: "group:"@ + to_remove[i], member: "article:"@ + number },
    )
}

/// Plans the sorting of the article with the number `article_id` into the
/// groups `to_add` and out of the groups `to_remove`.
pub fn add_remove_groups(article_id: &str, to_add: Vec<String>, to_remove: Vec<String>) -> (plan: Vec<
    ArticleOp,
>)
    ensures
        ops_view(plan@) == group_plan(article_id@, to_add.deep_view(), to_remove.deep_view()),
{
    let mut plan: Vec<ArticleOp> = Vec::new();
    let mut i: usize = 0;
    while i < to_add.len()
        invariant
            i <= to_add.len(),
            ops_view(plan@) == group_plan(
                article_id@,
                to_add.deep_view().take(i as int),
                Seq::empty(),
            ),
        decreases to_add.len() - i,
    {
        let ghost before = ops_view(plan@);
        plan.push(
            ArticleOp::SetAdd {
                key: prefixed("group:", to_add[i].as_str()),
                member: prefixed("article:", article_id),
            },
        );
        assert(ops_view(plan@) =~= before.push(plan[i as int]@));
        assert(ops_view(plan@) =~= group_plan(
            article_id@,
            to_add.deep_view().take(i as int + 1),
            Seq::empty(),
        ));
        i += 1;
    }
    assert(to_add.deep_view().take(to_add.len() as int) =~= to_add.deep_view());
    let mut j: usize = 0;
    while j < to_remove.len()
        invariant
            j <= to_remove.len(),
            ops_view(plan@) == group_plan(
                article_id@,
                to_add.deep_view(),
                to_remove.deep_view().take(j as int),
            ),
        decreases to_remove.len() - j,
    {
        let ghost before = ops_view(plan@);
        plan.push(
            ArticleOp::SetRemove {
                key: prefixed("group:", to_remove[j].as_str()),
                member: prefixed("article:", article_id),
            },
        );
        assert(ops_view(plan@) =~= before.push(plan[to_add.len() + j]@));
        assert(ops_view(plan@) =~= group_plan(
            article_id@,
            to_add.deep_view(),
            to_remove.deep_view().take(j as int + 1),
        ));
        j += 1;
    }
    assert(to_remove.deep_view().take(to_remove.len() as int) =~= to_remove.deep_view());
    plan
}

/// An event in the listing of a group.
#[derive(Debug, Clone, Copy)]
pub enum GroupEvent {
    /// The listing was asked for.
    Arrived,
    /// Whether the store has the group's listing in the order asked for.
    Known(bool),
}

/// What the caller is asked to do next for the listing.
#[derive(Debug, Clone)]
pub enum GroupAction {
    /// Ask the store whether it has the group's listing, and hand in `Known`.
    Probe(ArticleOp),
    /// Perform `prepare` in order, then read the page with `listing`.
    List { prepare: Vec<ArticleOp>, listing: ArticleOp },
}

/// What a [`GroupAction`] says, over mathematical strings.
pub enum GroupActionView {
    Probe(ArticleOpView),
    List { prepare: Seq<ArticleOpView>, listing: ArticleOpView },
}

impl View for GroupAction {
    type V = GroupActionView;

    open spec fn view(&self) -> GroupActionView {
        match *self {
            GroupAction::Probe(op) => GroupActionView::Probe(op@),
            GroupAction::List { prepare, listing } => GroupActionView::List {
                prepare: ops_view(prepare@),
                listing: listing@,
            },
        }
    }
}

/// One step of listing page `page` of the articles of `group` in `order`.
///
/// The listing of a group in an order is kept under the name of the order
/// followed by the group. Where the store does not have it, it is made of the
/// articles that are both in the group and in the order, and kept for
/// `GROUP_SECONDS`.
pub open spec fn group_step(
    group: Seq<char>,
    page: int,
    order: Option<Seq<char>>,
    event: GroupEvent,
) -> GroupActionView {
    let key = order_or_score(order) + group;
    match event {
        GroupEvent::Arrived => GroupActionView::Probe(ArticleOpView::Exists { key }),
        GroupEvent::Known(known) => GroupActionView::List {
            prepare: if known {
                Seq::empty()
            } else {
                seq![
                    ArticleOpView::IntersectMax {
                        target: key,
                        sources: seq!["group:"@ + group, order_or_score(order)],
                    },
                    ArticleOpView::Expire { key, seconds: GROUP_SECONDS as nat },
                ]
            },
            listing: listing(page, Some(key)),
        },
    }
}

/// One step of listing page `page` of the articles of `group` in `order`.
pub fn get_group_articles(group: &str, page: i64, order: Option<String>, event: GroupEvent) -> (action:
    GroupAction)
    requires
        i64::MIN <= (page - 1) * ARTICLES_PER_PAGE,
        (page - 1) * ARTICLES_PER_PAGE + ARTICLES_PER_PAGE - 1 <= i64::MAX,
    ensures
        action@ == group_step(
            group@,
            page as int,
            match order {
                Some(key) => Some(key@),
                None => None,
            },
            event,
        ),
{
    let order = match order {
        Some(key) => key,
        None => "score:".to_owned(),
    };
    let key = prefixed(order.as_str(), group);
    match event {
        GroupEvent::Arrived => GroupAction::Probe(ArticleOp::Exists { key }),
        GroupEvent::Known(known) => {
            let mut prepare: Vec<ArticleOp> = Vec::new();
            if !known {
                let mut sources: Vec<String> = Vec::new();
                sources.push(prefixed("group:", group));
                sources.push(order);
                assert(sources.deep_view() =~= seq!["group:"@ + group@, order@]);
                prepare.push(ArticleOp::IntersectMax { target: key.clone(), sources });
                prepare.push(ArticleOp::Expire { key: key.clone(), seconds: GROUP_SECONDS });
                assert(ops_view(prepare@) =~= seq![prepare[0]@, prepare[1]@]);
            } else {
                assert(ops_view(prepare@) =~= Seq::empty());
            }
            GroupAction::List { prepare, listing: get_articles(page, Some(key)) }
        },
    }
}

} // verus!
