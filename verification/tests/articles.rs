//! The article feature, run against a small in-memory store.

use std::collections::{BTreeMap, BTreeSet};

use session_cache::articles::{
    add_remove_groups, article_fields, article_id, article_of, article_vote, get_articles,
    get_group_articles, next_article_number, post_article, Article, ArticleOp, GroupAction,
    GroupEvent, VoteAction, VoteError, VoteEvent,
};

#[derive(Default)]
struct MemoryStore {
    counters: BTreeMap<String, u64>,
    sets: BTreeMap<String, BTreeSet<String>>,
    hashes: BTreeMap<String, Vec<(String, String)>>,
    sorted: BTreeMap<String, BTreeMap<String, i64>>,
    expiring: BTreeMap<String, u64>,
}

enum Reply {
    Nothing,
    Number(u64),
    Flag(bool),
    Fields(Vec<(String, String)>),
    Score(Option<i64>),
    Members(Vec<String>),
}

impl MemoryStore {
    fn has_key(&self, key: &str) -> bool {
        self.counters.contains_key(key)
            || self.sets.contains_key(key)
            || self.hashes.contains_key(key)
            || self.sorted.contains_key(key)
    }

    fn perform(&mut self, op: &ArticleOp) -> Reply {
        match op {
            ArticleOp::Increment { key } => {
                let counter = self.counters.entry(key.clone()).or_insert(0);
                *counter += 1;
                Reply::Number(*counter)
            }
            ArticleOp::SetAdd { key, member } => {
                Reply::Flag(self.sets.entry(key.clone()).or_default().insert(member.clone()))
            }
            ArticleOp::SetRemove { key, member } => {
                Reply::Flag(self.sets.entry(key.clone()).or_default().remove(member))
            }
            ArticleOp::Expire { key, seconds } => {
                self.expiring.insert(key.clone(), *seconds);
                Reply::Nothing
            }
            ArticleOp::HashSetAll { key, fields } => {
                let hash = self.hashes.entry(key.clone()).or_default();
                for (name, value) in fields {
                    hash.retain(|f| &f.0 != name);
                    hash.push((name.clone(), value.clone()));
                }
                Reply::Nothing
            }
            ArticleOp::HashIncrement { key, field, delta } => {
                let hash = self.hashes.entry(key.clone()).or_default();
                let old: i64 = hash.iter().find(|f| &f.0 == field).map_or(0, |f| f.1.parse().unwrap());
                hash.retain(|f| &f.0 != field);
                hash.push((field.clone(), (old + delta).to_string()));
                Reply::Nothing
            }
            ArticleOp::HashGetAll { key } => {
                Reply::Fields(self.hashes.get(key).cloned().unwrap_or_default())
            }
            ArticleOp::SortedAdd { key, member, score } => {
                self.sorted.entry(key.clone()).or_default().insert(member.clone(), *score);
                Reply::Nothing
            }
            ArticleOp::SortedIncrement { key, member, delta } => {
                let set = self.sorted.entry(key.clone()).or_default();
                let old = set.get(member).copied().unwrap_or(0);
                set.insert(member.clone(), old + delta);
                Reply::Nothing
            }
            ArticleOp::SortedScore { key, member } => {
                Reply::Score(self.sorted.get(key).and_then(|s| s.get(member)).copied())
            }
            ArticleOp::SortedRangeDescending { key, start, stop } => {
                let mut entries: Vec<(String, i64)> = match self.sorted.get(key) {
                    Some(set) => set.iter().map(|(m, s)| (m.clone(), *s)).collect(),
                    None => Vec::new(),
                };
                entries.sort_by(|a, b| b.1.cmp(&a.1).then(b.0.cmp(&a.0)));
                let len = entries.len() as i64;
                let from = if *start < 0 { (len + start).max(0) } else { *start };
                let last = if *stop < 0 { len + stop } else { *stop };
                let to = if last >= len { len } else { last + 1 };
                Reply::Members(if from < to {
                    entries[from as usize..to as usize].iter().map(|e| e.0.clone()).collect()
                } else {
                    Vec::new()
                })
            }
            ArticleOp::IntersectMax { target, sources } => {
                let mut result: BTreeMap<String, i64> = BTreeMap::new();
                let has = |source: &String, member: &String| -> Option<i64> {
                    if let Some(set) = self.sets.get(source) {
                        return if set.contains(member) { Some(1) } else { None };
                    }
                    self.sorted.get(source).and_then(|s| s.get(member)).copied()
                };
                let candidates: Vec<String> = match sources.first() {
                    Some(first) => match self.sets.get(first) {
                        Some(set) => set.iter().cloned().collect(),
                        None => self.sorted.get(first).map_or(Vec::new(), |s| s.keys().cloned().collect()),
                    },
                    None => Vec::new(),
                };
                for member in candidates {
                    let scores: Vec<Option<i64>> = sources.iter().map(|s| has(s, &member)).collect();
                    if scores.iter().all(|s| s.is_some()) {
                        result.insert(member, scores.into_iter().map(|s| s.unwrap()).max().unwrap());
                    }
                }
                self.sorted.insert(target.clone(), result);
                Reply::Nothing
            }
            ArticleOp::Exists { key } => Reply::Flag(self.has_key(key)),
        }
    }

    fn post(&mut self, user: &str, title: &str, link: &str, now: i64) -> String {
        let number = match self.perform(&next_article_number()) {
            Reply::Number(n) => n,
            _ => panic!("the counter is a number"),
        };
        let (id, plan) = post_article(number, user, title, link, now);
        for op in &plan {
            self.perform(op);
        }
        id
    }

    fn vote(&mut self, user: &str, article: &str, now: i64) -> Result<(), VoteError> {
        let mut event = VoteEvent::Arrived;
        loop {
            event = match article_vote(user, article, event) {
                VoteAction::AskPosted(op) => match self.perform(&op) {
                    Reply::Score(Some(posted)) => VoteEvent::Posted { posted, now },
                    _ => panic!("the article has a time"),
                },
                VoteAction::Reject(error) => return Err(error),
                VoteAction::AddVoter(op) => match self.perform(&op) {
                    Reply::Flag(new) => VoteEvent::Added(new),
                    _ => panic!("adding a voter gives a flag"),
                },
                VoteAction::Count(plan) => {
                    for op in &plan {
                        self.perform(op);
                    }
                    return Ok(());
                }
                VoteAction::Done => return Ok(()),
            };
        }
    }

    fn list(&mut self, op: &ArticleOp) -> Vec<Article> {
        let ids = match self.perform(op) {
            Reply::Members(ids) => ids,
            _ => panic!("a listing gives members"),
        };
        let mut articles = Vec::new();
        for id in ids {
            let fields = match self.perform(&article_fields(&id)) {
                Reply::Fields(fields) => fields,
                _ => panic!("an article has fields"),
            };
            articles.push(article_of(id, fields));
        }
        articles
    }

    fn group_articles(&mut self, group: &str, page: i64, order: Option<String>) -> Vec<Article> {
        let mut event = GroupEvent::Arrived;
        loop {
            event = match get_group_articles(group, page, order.clone(), event) {
                GroupAction::Probe(op) => match self.perform(&op) {
                    Reply::Flag(known) => GroupEvent::Known(known),
                    _ => panic!("a probe gives a flag"),
                },
                GroupAction::List { prepare, listing } => {
                    for op in &prepare {
                        self.perform(op);
                    }
                    return self.list(&listing);
                }
            };
        }
    }

    fn field(&self, key: &str, name: &str) -> Option<String> {
        self.hashes.get(key).and_then(|h| h.iter().find(|f| f.0 == name).map(|f| f.1.clone()))
    }
}

#[test]
fn test_article_functionality() {
    let mut store = MemoryStore::default();
    let now = 1_700_000_000_000;

    let article_id = store.post("username", "A title", "http://google.com", now);
    let mut article = "article:".to_owned();
    article.push_str(&article_id);
    assert!(!article_id.is_empty());

    let r: Article = store.hashes.get(&article).cloned().unwrap();
    assert!(r.len() != 0);

    store.vote("other_user", &article, now + 1).unwrap();
    let v: usize = store.field(&article, "votes").unwrap().parse().unwrap();
    assert!(v > 1);

    let articles = store.list(&get_articles(1, None));
    assert!(articles.len() >= 1);

    for op in &add_remove_groups(&article_id, vec!["new-group".to_string()], vec![]) {
        store.perform(op);
    }
    let articles = store.group_articles("new-group", 1, None);
    assert!(articles.len() >= 1);
}

#[test]
fn posting_writes_the_article_and_its_orders() {
    let mut store = MemoryStore::default();
    let id = store.post("alice", "Title", "http://example.com", 5000);
    assert_eq!(id, "1");
    assert_eq!(
        store.hashes.get("article:1").unwrap(),
        &vec![
            ("title".to_string(), "Title".to_string()),
            ("link".to_string(), "http://example.com".to_string()),
            ("poster".to_string(), "alice".to_string()),
            ("time".to_string(), "5000".to_string()),
            ("votes".to_string(), "1".to_string()),
        ]
    );
    assert_eq!(store.sorted.get("score:").unwrap().get("article:1"), Some(&5432));
    assert_eq!(store.sorted.get("time:").unwrap().get("article:1"), Some(&5000));
    assert!(store.sets.get("voted:1").unwrap().contains("alice"));
    assert_eq!(store.expiring.get("voted:1"), Some(&604800));
    assert_eq!(store.post("bob", "Other", "http://example.org", 6000), "2");
}

#[test]
fn a_vote_counts_once_per_user() {
    let mut store = MemoryStore::default();
    store.post("alice", "Title", "http://example.com", 5000);
    assert_eq!(store.vote("bob", "article:1", 6000), Ok(()));
    assert_eq!(store.sorted.get("score:").unwrap().get("article:1"), Some(&(5000 + 432 + 432)));
    assert_eq!(store.field("article:1", "votes"), Some("2".to_string()));
    assert_eq!(store.vote("bob", "article:1", 7000), Ok(()));
    assert_eq!(store.vote("alice", "article:1", 7000), Ok(()));
    assert_eq!(store.sorted.get("score:").unwrap().get("article:1"), Some(&(5000 + 432 + 432)));
    assert_eq!(store.field("article:1", "votes"), Some("2".to_string()));
}

#[test]
fn an_article_older_than_a_week_takes_no_vote() {
    let mut store = MemoryStore::default();
    store.post("alice", "Title", "http://example.com", 5000);
    let week = 7 * 86400 * 1000;
    assert_eq!(store.vote("bob", "article:1", 5000 + week), Ok(()));
    assert_eq!(store.vote("carol", "article:1", 5000 + week + 1), Err(VoteError::TooOld));
    assert_eq!(store.field("article:1", "votes"), Some("2".to_string()));
    assert_eq!(
        VoteError::TooOld.message(),
        "Cannot upvote posts created more than a week ago."
    );
}

#[test]
fn article_id_is_what_follows_the_last_colon() {
    assert_eq!(article_id("article:123"), "123");
    assert_eq!(article_id("a:b:77"), "77");
    assert_eq!(article_id("plain"), "plain");
    assert_eq!(article_id("ends:"), "");
    assert_eq!(article_id(""), "");
    assert_eq!(article_id("é:ü9"), "ü9");
}

#[test]
fn listing_reads_pages_of_25_from_the_top() {
    match get_articles(1, None) {
        ArticleOp::SortedRangeDescending { key, start, stop } => {
            assert_eq!((key.as_str(), start, stop), ("score:", 0, 24));
        }
        other => panic!("unexpected operation {:?}", other),
    }
    match get_articles(3, Some("time:".to_string())) {
        ArticleOp::SortedRangeDescending { key, start, stop } => {
            assert_eq!((key.as_str(), start, stop), ("time:", 50, 74));
        }
        other => panic!("unexpected operation {:?}", other),
    }
    let mut store = MemoryStore::default();
    for i in 0..30 {
        store.post("alice", &format!("Title {}", i), "http://example.com", 1000 + i);
    }
    let first = store.list(&get_articles(1, None));
    assert_eq!(first.len(), 25);
    assert_eq!(first[0].last().unwrap(), &("id".to_string(), "article:30".to_string()));
    let second = store.list(&get_articles(2, None));
    assert_eq!(second.len(), 5);
    assert_eq!(second[4].last().unwrap(), &("id".to_string(), "article:1".to_string()));
}

#[test]
fn groups_are_added_then_removed() {
    let plan = add_remove_groups(
        "7",
        vec!["rust".to_string(), "verus".to_string()],
        vec!["old".to_string()],
    );
    assert_eq!(plan.len(), 3);
    match (&plan[0], &plan[1], &plan[2]) {
        (
            ArticleOp::SetAdd { key: k0, member: m0 },
            ArticleOp::SetAdd { key: k1, member: m1 },
            ArticleOp::SetRemove { key: k2, member: m2 },
        ) => {
            assert_eq!((k0.as_str(), m0.as_str()), ("group:rust", "article:7"));
            assert_eq!((k1.as_str(), m1.as_str()), ("group:verus", "article:7"));
            assert_eq!((k2.as_str(), m2.as_str()), ("group:old", "article:7"));
        }
        other => panic!("unexpected plan {:?}", other),
    }
    assert!(add_remove_groups("7", vec![], vec![]).is_empty());
}

#[test]
fn group_listing_is_made_once_and_kept_for_a_minute() {
    let mut store = MemoryStore::default();
    let a = store.post("alice", "In", "http://example.com", 1000);
    let _b = store.post("alice", "Out", "http://example.com", 2000);
    for op in &add_remove_groups(&a, vec!["g".to_string()], vec![]) {
        store.perform(op);
    }
    let listed = store.group_articles("g", 1, None);
    assert_eq!(listed.len(), 1);
    assert_eq!(listed[0].last().unwrap(), &("id".to_string(), "article:1".to_string()));
    assert_eq!(store.sorted.get("score:g").unwrap().get("article:1"), Some(&1432));
    assert_eq!(store.expiring.get("score:g"), Some(&60));
    match get_group_articles("g", 2, Some("time:".to_string()), GroupEvent::Known(true)) {
        GroupAction::List { prepare, listing } => {
            assert!(prepare.is_empty());
            match listing {
                ArticleOp::SortedRangeDescending { key, start, stop } => {
                    assert_eq!((key.as_str(), start, stop), ("time:g", 25, 49));
                }
                other => panic!("unexpected operation {:?}", other),
            }
        }
        other => panic!("unexpected action {:?}", other),
    }
}
