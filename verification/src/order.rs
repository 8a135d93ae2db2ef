//! Facts about the rank order of an ordered set.

use vstd::prelude::*;
use crate::model::{is_ranking, range_end, range_start, ranked, ranking, trimmed, Scores};

verus! {

/// In a list sorted by score there is a place for any score: all before it
/// score no more, all from it on score more.
proof fn lemma_place(scores: Scores, order: Seq<Seq<char>>, score: int) -> (place: int)
    requires
        forall|i: int, j: int|
            0 <= i < j < order.len() ==> scores[#[trigger] order[i]] <= scores[#[trigger] order[j]],
    ensures
        0 <= place <= order.len(),
        forall|i: int| 0 <= i < place ==> scores[#[trigger] order[i]] <= score,
        forall|i: int| place <= i < order.len() ==> scores[#[trigger] order[i]] > score,
    decreases order.len(),
{
    if order.len() == 0 {
        0
    } else if scores[order.last()] <= score {
        assert forall|i: int| 0 <= i < order.len() implies scores[#[trigger] order[i]] <= score by {
            if i < order.len() - 1 {
                assert(scores[order[i]] <= scores[order[order.len() - 1]]);
            }
        }
        order.len() as int
    } else {
        let front = order.drop_last();
        assert forall|i: int, j: int| 0 <= i < j < front.len() implies scores[#[trigger] front[i]]
            <= scores[#[trigger] front[j]] by {
            assert(front[i] == order[i] && front[j] == order[j]);
        }
        let place = lemma_place(scores, front, score);
        assert forall|i: int| 0 <= i < place implies scores[#[trigger] order[i]] <= score by {
            assert(front[i] == order[i]);
        }
        assert forall|i: int| place <= i < order.len() implies scores[#[trigger] order[i]] > score by {
            if i < front.len() {
                assert(front[i] == order[i]);
            }
        }
        place
    }
}

/// A finite ordered set has a rank order, and the store's is one.
pub proof fn lemma_ranking(scores: Scores)
    requires
        scores.dom().finite(),
    ensures
        is_ranking(scores, ranking(scores)),
        ranking(scores).len() == scores.dom().len(),
    decreases scores.dom().len(),
{
    if scores.dom().len() == 0 {
        let order = Seq::<Seq<char>>::empty();
        assert forall|member: Seq<char>| #[trigger] order.contains(member) <==> scores.contains_key(member) by {
            if scores.contains_key(member) {
                assert(scores.dom().contains(member));
            }
        }
        assert(is_ranking(scores, order));
    } else {
        let member = scores.dom().choose();
        let rest = scores.remove(member);
        lemma_ranking(rest);
        let front = ranking(rest);
        assert forall|i: int, j: int| 0 <= i < j < front.len() implies scores[#[trigger] front[i]]
            <= scores[#[trigger] front[j]] by {
            assert(front.contains(front[i]) && front.contains(front[j]));
            assert(rest[front[i]] <= rest[front[j]]);
        }
        let place = lemma_place(scores, front, scores[member]);
        let order = front.insert(place, member);
        assert(!front.contains(member));
        assert forall|i: int| 0 <= i < order.len() implies #[trigger] order[i] == (if i < place {
            front[i]
        } else if i == place {
            member
        } else {
            front[i - 1]
        }) by {}
        assert forall|i: int, j: int| 0 <= i < j < order.len() implies order[i] != order[j] by {
            if i != place && j != place {
                let a = if i < place { i } else { i - 1 };
                let b = if j < place { j } else { j - 1 };
                assert(front[a] != front[b]);
            } else if i == place {
                assert(front.contains(front[j - 1]));
            } else {
                assert(front.contains(front[i]));
            }
        }
        assert forall|other: Seq<char>| #[trigger] order.contains(other) <==> scores.contains_key(other) by {
            if order.contains(other) {
                let i = choose|i: int| 0 <= i < order.len() && order[i] == other;
                if i != place {
                    let a = if i < place { i } else { i - 1 };
                    assert(front.contains(front[a]));
                }
            }
            if scores.contains_key(other) {
                if other == member {
                    assert(order[place] == other);
                } else {
                    assert(rest.contains_key(other));
                    assert(front.contains(other));
                    let a = choose|a: int| 0 <= a < front.len() && front[a] == other;
                    let i = if a < place { a } else { a + 1 };
                    assert(order[i] == other);
                }
            }
        }
        assert forall|i: int, j: int| 0 <= i < j < order.len() implies scores[#[trigger] order[i]]
            <= scores[#[trigger] order[j]] by {
            if i != place && j != place {
                let a = if i < place { i } else { i - 1 };
                let b = if j < place { j } else { j - 1 };
                assert(scores[front[a]] <= scores[front[b]]);
            } else if i == place {
                assert(scores[front[j - 1]] > scores[member]);
            } else {
                assert(scores[front[i]] <= scores[member]);
            }
        }
        assert(is_ranking(scores, order));
    }
    lemma_ranking_len(scores, ranking(scores));
}

/// A rank order is as long as the set has members.
pub proof fn lemma_ranking_len(scores: Scores, order: Seq<Seq<char>>)
    requires
        scores.dom().finite(),
        is_ranking(scores, order),
    ensures
        order.len() == scores.dom().len(),
{
    order.unique_seq_to_set();
    assert(order.to_set() =~= scores.dom()) by {
        assert forall|member: Seq<char>| order.to_set().contains(member) <==> scores.dom().contains(
            member,
        ) by {
            assert(order.contains(member) <==> scores.contains_key(member));
        }
    }
}

/// Taking the `count` lowest-ranked members out of an ordered set leaves the
/// others, with their scores, and none that was taken scores more than one that is left.
pub proof fn lemma_cut_lowest(scores: Scores, count: int)
    requires
        scores.dom().finite(),
        0 <= count <= scores.dom().len(),
    ensures
        ({
            let taken = ranking(scores).subrange(0, count);
            let left = scores.remove_keys(taken.to_set());
            &&& taken.no_duplicates()
            &&& forall|member: Seq<char>| taken.contains(member) ==> scores.contains_key(member)
            &&& left.dom().finite()
            &&& left.dom().len() == scores.dom().len() - count
            &&& forall|kept: Seq<char>, cut: Seq<char>|
                #![trigger left.contains_key(kept), taken.contains(cut)]
                left.contains_key(kept) && taken.contains(cut) ==> scores[cut] <= scores[kept]
        }),
{
    lemma_ranking(scores);
    let order = ranking(scores);
    let len = order.len() as int;
    let taken = order.subrange(0, count);
    let top = order.subrange(count, len);
    let left = scores.remove_keys(taken.to_set());
    assert forall|i: int, j: int| 0 <= i < j < top.len() implies top[i] != top[j] by {
        assert(top[i] == order[count + i] && top[j] == order[count + j]);
    }
    assert forall|i: int, j: int| 0 <= i < j < taken.len() implies taken[i] != taken[j] by {
        assert(taken[i] == order[i] && taken[j] == order[j]);
    }
    assert forall|member: Seq<char>| taken.contains(member) implies scores.contains_key(member) by {
        let i = choose|i: int| 0 <= i < taken.len() && taken[i] == member;
        assert(order[i] == member);
        assert(order.contains(member));
    }
    top.unique_seq_to_set();
    assert(left.dom() =~= top.to_set()) by {
        assert forall|member: Seq<char>| left.dom().contains(member) <==> top.to_set().contains(
            member,
        ) by {
            if left.dom().contains(member) {
                assert(order.contains(member));
                let i = choose|i: int| 0 <= i < order.len() && order[i] == member;
                if i < count {
                    assert(taken[i] == member);
                    assert(taken.contains(member));
                }
                assert(top[i - count] == member);
            }
            if top.to_set().contains(member) {
                let j = choose|j: int| 0 <= j < top.len() && top[j] == member;
                assert(order[count + j] == member);
                assert(order.contains(member));
                if taken.contains(member) {
                    let i = choose|i: int| 0 <= i < taken.len() && taken[i] == member;
                    assert(order[i] == member);
                    assert(false);
                }
            }
        }
    }
    assert forall|kept: Seq<char>, cut: Seq<char>|
        left.contains_key(kept) && taken.contains(cut) implies scores[cut] <= scores[kept] by {
        assert(top.to_set().contains(kept));
        let j = choose|j: int| 0 <= j < top.len() && top[j] == kept;
        assert(order[count + j] == kept);
        let i = choose|i: int| 0 <= i < taken.len() && taken[i] == cut;
        assert(order[i] == cut);
        assert(scores[order[i]] <= scores[order[count + j]]);
    }
}

/// Cutting an ordered set down to its `keep` highest-ranked members leaves
/// that many, or all where there were fewer; what is left was there before,
/// with its score; and no member that was cut off scores more than one that is left.
pub proof fn lemma_keep_highest(scores: Scores, keep: nat)
    requires
        scores.dom().finite(),
    ensures
        trimmed(scores, 0, -(keep + 1)).dom().finite(),
        trimmed(scores, 0, -(keep + 1)).dom().len() == if scores.dom().len() <= keep {
            scores.dom().len()
        } else {
            keep
        },
        trimmed(scores, 0, -(keep + 1)).submap_of(scores),
        forall|kept: Seq<char>, cut: Seq<char>|
            #![trigger trimmed(scores, 0, -(keep + 1)).contains_key(kept), scores.contains_key(cut)]
            trimmed(scores, 0, -(keep + 1)).contains_key(kept) && scores.contains_key(cut) && !trimmed(
                scores,
                0,
                -(keep + 1),
            ).contains_key(cut) ==> scores[cut] <= scores[kept],
{
    lemma_ranking(scores);
    let len = ranking(scores).len() as int;
    let left = trimmed(scores, 0, -(keep + 1));
    let cut_off = ranked(scores, 0, -(keep + 1));
    assert(range_start(len, 0) == 0);
    assert(range_end(len, -(keep + 1)) == len - keep);
    if len <= keep {
        assert(cut_off =~= Seq::empty());
        assert(cut_off.to_set() =~= Set::empty());
        assert(left =~= scores);
    } else {
        lemma_cut_lowest(scores, len - keep);
        assert(cut_off == ranking(scores).subrange(0, len - keep));
        assert forall|kept: Seq<char>, cut: Seq<char>|
            left.contains_key(kept) && scores.contains_key(cut) && !left.contains_key(
                cut,
            ) implies scores[cut] <= scores[kept] by {
            assert(cut_off.to_set().contains(cut));
            assert(cut_off.contains(cut));
        }
    }
}

/// The `count` lowest-ranked members of an ordered set are what the rank
/// range from 0 to `count - 1` covers, where the set has that many.
pub proof fn lemma_ranked_lowest(scores: Scores, count: int)
    requires
        scores.dom().finite(),
        0 < count <= scores.dom().len(),
    ensures
        ranked(scores, 0, count - 1) == ranking(scores).subrange(0, count),
{
    lemma_ranking(scores);
}

} // verus!
