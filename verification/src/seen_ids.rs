//! A bounded first-in-first-out set of message ids, for inbound deduplication.

use std::collections::VecDeque;
use vstd::prelude::*;

use crate::identity::{lemma_texts_push, texts};
use crate::text::same_text;

verus! {

/// How many message ids are remembered. 4096 covers one message every 21
/// seconds over a day.
pub const SEEN_MESSAGE_IDS_CAP: usize = 4096;

/// The ids remembered after `id` is offered to a set that remembers `ids`,
/// oldest first: nothing changes where `id` is known, else `id` goes to the
/// end, and the oldest id leaves where there is no room.
pub open spec fn remembered(ids: Seq<Seq<char>>, id: Seq<char>) -> Seq<Seq<char>> {
    if ids.contains(id) {
        ids
    } else if ids.len() >= SEEN_MESSAGE_IDS_CAP {
        ids.push(id).drop_first()
    } else {
        ids.push(id)
    }
}

/// The ids remembered after `news` are offered one after another.
pub open spec fn remembered_all(ids: Seq<Seq<char>>, news: Seq<Seq<char>>) -> Seq<Seq<char>>
    decreases news.len(),
{
    if news.len() == 0 {
        ids
    } else {
        remembered(remembered_all(ids, news.drop_last()), news.last())
    }
}

/// Within the bound, and no id twice.
pub open spec fn bounded_set(ids: Seq<Seq<char>>) -> bool {
    ids.len() <= SEEN_MESSAGE_IDS_CAP && ids.no_duplicates()
}

/// Bounded first-in-first-out set of message ids.
#[derive(Debug)]
pub struct SeenIds {
    order: VecDeque<String>,
}

impl View for SeenIds {
    type V = Seq<Seq<char>>;

    closed spec fn view(&self) -> Seq<Seq<char>> {
        texts(self.order@)
    }
}

impl SeenIds {
    /// At most [`SEEN_MESSAGE_IDS_CAP`] ids, none twice.
    pub open spec fn wf(&self) -> bool {
        bounded_set(self@)
    }

    /// A set that remembers nothing.
    pub fn new() -> (ids: SeenIds)
        ensures
            ids@ == Seq::<Seq<char>>::empty(),
            ids.wf(),
    {
        let ids: SeenIds = SeenIds { order: VecDeque::new() };
        assert(ids@ =~= Seq::<Seq<char>>::empty());
        ids
    }

    /// Offers the last [`SEEN_MESSAGE_IDS_CAP`] of `ids`, in order, to an
    /// empty set.
    pub fn from_vec(ids: &[String]) -> (seen: SeenIds)
        ensures
            seen.wf(),
            seen@ == remembered_all(
                Seq::empty(),
                texts(
                    if ids@.len() > SEEN_MESSAGE_IDS_CAP {
                        ids@.skip(ids@.len() - SEEN_MESSAGE_IDS_CAP)
                    } else {
                        ids@
                    },
                ),
            ),
    {
        let mut seen: SeenIds = SeenIds::new();
        let start: usize = if ids.len() > SEEN_MESSAGE_IDS_CAP {
            ids.len() - SEEN_MESSAGE_IDS_CAP
        } else {
            0
        };
        let ghost news: Seq<Seq<char>> = texts(ids@.skip(start as int));
        let mut i: usize = start;
        while i < ids.len()
            invariant
                start <= i <= ids@.len(),
                news == texts(ids@.skip(start as int)),
                seen.wf(),
                seen@ == remembered_all(Seq::empty(), news.take(i - start)),
            decreases ids.len() - i,
        {
            seen.insert(ids[i].clone());
            proof {
                let upto = news.take(i + 1 - start);
                assert(upto.drop_last() =~= news.take(i - start));
                assert(upto.last() == ids@[i as int]@);
            }
            i = i + 1;
        }
        assert(news.take(ids@.len() - start) =~= news);
        assert(ids@.skip(0) =~= ids@);
        seen
    }

    /// Whether `id` is remembered.
    pub fn contains(&self, id: &str) -> (yes: bool)
        ensures
            yes == self@.contains(id@),
    {
        let mut i: usize = 0;
        while i < self.order.len()
            invariant
                i <= self.order@.len(),
                forall|k: int| 0 <= k < i ==> #[trigger] self@[k] != id@,
            decreases self.order.len() - i,
        {
            if same_text(self.order[i].as_str(), id) {
                assert(self@[i as int] == id@);
                return true;
            }
            assert(self@[i as int] != id@);
            i = i + 1;
        }
        false
    }

    /// How many ids are remembered.
    pub fn len(&self) -> (n: usize)
        ensures
            n == self@.len(),
    {
        self.order.len()
    }

    /// The remembered ids, oldest first.
    pub fn iter(&self) -> (ids: Vec<String>)
        ensures
            texts(ids@) == self@,
    {
        let mut ids: Vec<String> = Vec::new();
        let mut i: usize = 0;
        while i < self.order.len()
            invariant
                i <= self.order@.len(),
                texts(ids@) == self@.take(i as int),
            decreases self.order.len() - i,
        {
            proof {
                lemma_texts_push(ids@, self.order@[i as int]);
                assert(self@.take(i as int).push(self@[i as int]) =~= self@.take(i + 1));
            }
            ids.push(self.order[i].clone());
            i = i + 1;
        }
        assert(self@.take(self@.len() as int) =~= self@);
        ids
    }

    /// Offers `id`. Returns whether it was new; a known id changes nothing.
    pub fn insert(&mut self, id: String) -> (new: bool)
        requires
            old(self).wf(),
        ensures
            final(self).wf(),
            final(self)@ == remembered(old(self)@, id@),
            new == !old(self)@.contains(id@),
    {
        let ghost before: Seq<Seq<char>> = self@;
        let ghost name: Seq<char> = id@;
        if self.contains(id.as_str()) {
            return false;
        }
        self.order.push_back(id);
        assert(self@ =~= before.push(name));
        if self.order.len() > SEEN_MESSAGE_IDS_CAP {
            let ghost full: Seq<Seq<char>> = self@;
            let _oldest: Option<String> = self.order.pop_front();
            assert(self@ =~= full.drop_first());
        }
        proof {
            lemma_remembered_keeps_bound(before, name);
        }
        true
    }
}

impl Clone for SeenIds {
    fn clone(&self) -> (ids: SeenIds)
        ensures
            ids@ == self@,
    {
        let mut order: VecDeque<String> = VecDeque::new();
        let mut i: usize = 0;
        while i < self.order.len()
            invariant
                i <= self.order@.len(),
                texts(order@) == self@.take(i as int),
            decreases self.order.len() - i,
        {
            proof {
                lemma_texts_push(order@, self.order@[i as int]);
                assert(self@.take(i as int).push(self@[i as int]) =~= self@.take(i + 1));
            }
            order.push_back(self.order[i].clone());
            i = i + 1;
        }
        assert(self@.take(self@.len() as int) =~= self@);
        SeenIds { order }
    }
}

/// Offering an id keeps the set within its bound and free of repeats.
pub proof fn lemma_remembered_keeps_bound(ids: Seq<Seq<char>>, id: Seq<char>)
    requires
        bounded_set(ids),
    ensures
        bounded_set(remembered(ids, id)),
        remembered(ids, id).contains(id),
{
    if !ids.contains(id) {
        let grown = ids.push(id);
        assert forall|i: int, j: int|
            0 <= i < grown.len() && 0 <= j < grown.len() && i != j implies grown[i] != grown[j] by {
            if i == ids.len() {
                assert(ids.contains(ids[j]));
            }
            if j == ids.len() {
                assert(ids.contains(ids[i]));
            }
        }
        assert(grown[ids.len() as int] == id);
        if ids.len() >= SEEN_MESSAGE_IDS_CAP {
            assert(grown.drop_first()[ids.len() - 1] == id);
        }
    }
}

/// Offering an id a second time changes nothing.
pub proof fn law_remembering_twice_changes_nothing(ids: Seq<Seq<char>>, id: Seq<char>)
    requires
        bounded_set(ids),
    ensures
        remembered(remembered(ids, id), id) == remembered(ids, id),
{
    lemma_remembered_keeps_bound(ids, id);
}

/// Only the oldest id can be forgotten: every other one is still remembered
/// after one more is offered.
pub proof fn law_oldest_leaves_first(ids: Seq<Seq<char>>, id: Seq<char>, k: int)
    requires
        bounded_set(ids),
        0 < k < ids.len(),
    ensures
        remembered(ids, id).contains(ids[k]),
{
    let after = remembered(ids, id);
    if ids.contains(id) {
    } else if ids.len() >= SEEN_MESSAGE_IDS_CAP {
        assert(after[k - 1] == ids[k]);
    } else {
        assert(after[k] == ids[k]);
    }
}

} // verus!
