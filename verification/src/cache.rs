//! The response cache: answer sets kept until the time-to-live of their
//! first record has run out.
//!
//! Expiry is lazy. An entry that has run out stays until it is read, and is
//! removed by the read that finds it stale. Instants are whole seconds since
//! the Unix epoch.

use crate::dns::resolver::{DnsQuestion, DnsResponse, QuestionView, ResponseView};
use vstd::prelude::*;

verus! {

/// Reads the clock with `chrono::Local::now().timestamp()`. Nothing is
/// claimed of the instant that comes back.
#[verifier::external_body]
pub(crate) fn now() -> i64 {
    chrono::Local::now().timestamp()
}

/// A cached answer set.
#[derive(Debug)]
pub struct CacheEntry {
    /// The first instant at which the entry is stale. It is held wide enough
    /// for the sum of any instant and any time-to-live.
    pub valid_until: i128,
    /// The answer set.
    pub response: DnsResponse,
}

/// `CacheEntry` over plain values.
pub struct EntryView {
    pub valid_until: int,
    pub response: ResponseView,
}

impl View for CacheEntry {
    type V = EntryView;

    open spec fn view(&self) -> EntryView {
        EntryView { valid_until: self.valid_until as int, response: self.response@ }
    }
}

impl Clone for CacheEntry {
    fn clone(&self) -> (r: Self)
        ensures
            r@ == self@,
    {
        CacheEntry { valid_until: self.valid_until, response: self.response.clone() }
    }
}

/// What a cache holds: for each question at most one entry.
pub type CacheView = Map<QuestionView, EntryView>;

/// The cache after `response` was stored under `question` at the instant
/// `now`: an answer set without records is not stored; any other replaces
/// what the question had, and runs out when the time-to-live of its first
/// record has passed.
pub open spec fn stored(m: CacheView, question: QuestionView, response: ResponseView, now: int)
    -> CacheView {
    if response.answer.len() > 0 {
        m.insert(
            question,
            EntryView { valid_until: now + response.answer[0].ttl, response: response },
        )
    } else {
        m
    }
}

/// The entry that a read of `question` at the instant `now` returns: the one
/// stored under the question, as long as it has not run out.
pub open spec fn fresh(m: CacheView, question: QuestionView, now: int) -> Option<EntryView> {
    if m.dom().contains(question) && now < m[question].valid_until {
        Some(m[question])
    } else {
        None
    }
}

/// The cache after a read of `question` at the instant `now`: an entry that
/// the read found stale is gone, all else is as it was.
pub open spec fn swept(m: CacheView, question: QuestionView, now: int) -> CacheView {
    if m.dom().contains(question) && !(now < m[question].valid_until) {
        m.remove(question)
    } else {
        m
    }
}

/// A read returns an entry exactly when one was stored under the question
/// and its time-to-live has not passed at the time of the read. After that
/// time the read returns nothing and leaves no entry behind. An answer set
/// stored under another question changes nothing for this one, an answer set
/// without records is never stored, and an empty cache returns nothing.
pub proof fn lemma_ttl_window(
    m: CacheView,
    question: QuestionView,
    response: ResponseView,
    stored_at: int,
    read_at: int,
    other: QuestionView,
)
    ensures
        response.answer.len() > 0 ==> (fresh(stored(m, question, response, stored_at), question, read_at)
            is Some <==> read_at < stored_at + response.answer[0].ttl),
        response.answer.len() > 0 ==> (fresh(
            stored(m, question, response, stored_at),
            question,
            read_at,
        ) matches Some(e) ==> e.response == response),
        response.answer.len() > 0 && read_at >= stored_at + response.answer[0].ttl ==> !swept(
            stored(m, question, response, stored_at),
            question,
            read_at,
        ).dom().contains(question),
        response.answer.len() == 0 ==> stored(m, question, response, stored_at) == m,
        other != question ==> fresh(stored(m, other, response, stored_at), question, read_at)
            == fresh(m, question, read_at),
        fresh(Map::empty(), question, read_at) is None,
{
}

struct Slot {
    question: DnsQuestion,
    entry: CacheEntry,
}

/// Whether no question occurs twice.
spec fn distinct(slots: Seq<Slot>) -> bool {
    forall|i: int, j: int|
        0 <= i < j < slots.len() ==> (#[trigger] slots[i]).question@ != (
        #[trigger] slots[j]).question@
}

/// Whether `question` occurs.
spec fn occurs(slots: Seq<Slot>, question: QuestionView) -> bool {
    exists|i: int| 0 <= i < slots.len() && (#[trigger] slots[i]).question@ == question
}

/// A position at which `question` occurs.
spec fn position(slots: Seq<Slot>, question: QuestionView) -> int {
    choose|i: int| 0 <= i < slots.len() && (#[trigger] slots[i]).question@ == question
}

/// The map from each question that occurs to its entry.
spec fn model(slots: Seq<Slot>) -> CacheView {
    Map::new(
        |question: QuestionView| occurs(slots, question),
        |question: QuestionView| slots[position(slots, question)].entry@,
    )
}

proof fn lemma_model_at(slots: Seq<Slot>, i: int)
    requires
        distinct(slots),
        0 <= i < slots.len(),
    ensures
        model(slots).dom().contains(slots[i].question@),
        model(slots)[slots[i].question@] == slots[i].entry@,
{
    let question = slots[i].question@;
    assert(occurs(slots, question));
    let j = position(slots, question);
    assert(0 <= j < slots.len() && slots[j].question@ == question);
    assert(i == j);
}

proof fn lemma_model_without(slots: Seq<Slot>, i: int)
    requires
        distinct(slots),
        0 <= i < slots.len(),
    ensures
        distinct(slots.remove(i)),
        model(slots.remove(i)) == model(slots).remove(slots[i].question@),
{
    let rest = slots.remove(i);
    let gone = slots[i].question@;
    assert forall|a: int, b: int| 0 <= a < b < rest.len() implies (#[trigger] rest[a]).question@ != (
    #[trigger] rest[b]).question@ by {
        let a0 = if a < i { a } else { a + 1 };
        let b0 = if b < i { b } else { b + 1 };
        assert(rest[a] == slots[a0]);
        assert(rest[b] == slots[b0]);
    }
    assert forall|question: QuestionView|
        model(rest).dom().contains(question) <==> #[trigger] model(slots).remove(
            gone,
        ).dom().contains(question) by {
        if occurs(rest, question) {
            let a = position(rest, question);
            let a0 = if a < i { a } else { a + 1 };
            assert(rest[a] == slots[a0]);
            assert(slots[a0].question@ == question);
            assert(a0 != i);
            if a0 < i {
                assert(slots[a0].question@ != slots[i].question@);
            } else {
                assert(slots[i].question@ != slots[a0].question@);
            }
        }
        if occurs(slots, question) && question != gone {
            let a0 = position(slots, question);
            let a = if a0 < i { a0 } else { a0 - 1 };
            assert(rest[a] == slots[a0]);
        }
    }
    assert forall|question: QuestionView| model(rest).dom().contains(question) implies model(
        rest,
    )[question] == #[trigger] model(slots).remove(gone)[question] by {
        let a = position(rest, question);
        let a0 = if a < i { a } else { a + 1 };
        assert(rest[a] == slots[a0]);
        lemma_model_at(rest, a);
        lemma_model_at(slots, a0);
    }
    assert(model(rest) =~= model(slots).remove(gone));
}

proof fn lemma_model_replaced(slots: Seq<Slot>, i: int, slot: Slot)
    requires
        distinct(slots),
        0 <= i < slots.len(),
        slot.question@ == slots[i].question@,
    ensures
        distinct(slots.update(i, slot)),
        model(slots.update(i, slot)) == model(slots).insert(slot.question@, slot.entry@),
{
    let next = slots.update(i, slot);
    let key = slot.question@;
    assert forall|a: int, b: int| 0 <= a < b < next.len() implies (#[trigger] next[a]).question@ != (
    #[trigger] next[b]).question@ by {
        assert(next[a].question@ == slots[a].question@);
        assert(next[b].question@ == slots[b].question@);
    }
    assert forall|question: QuestionView|
        model(next).dom().contains(question) <==> #[trigger] model(slots).insert(
            key,
            slot.entry@,
        ).dom().contains(question) by {
        if occurs(next, question) {
            let a = position(next, question);
            assert(next[a].question@ == slots[a].question@);
        }
        if occurs(slots, question) {
            let a = position(slots, question);
            assert(next[a].question@ == slots[a].question@);
        }
        if question == key {
            assert(next[i].question@ == key);
        }
    }
    assert forall|question: QuestionView| model(next).dom().contains(question) implies model(
        next,
    )[question] == #[trigger] model(slots).insert(key, slot.entry@)[question] by {
        let a = position(next, question);
        lemma_model_at(next, a);
        assert(next[a].question@ == slots[a].question@);
        if a != i {
            lemma_model_at(slots, a);
            assert(next[a] == slots[a]);
            if a < i {
                assert(slots[a].question@ != slots[i].question@);
            } else {
                assert(slots[i].question@ != slots[a].question@);
            }
        }
    }
    assert(model(next) =~= model(slots).insert(key, slot.entry@));
}

proof fn lemma_model_added(slots: Seq<Slot>, slot: Slot)
    requires
        distinct(slots),
        !occurs(slots, slot.question@),
    ensures
        distinct(slots.push(slot)),
        model(slots.push(slot)) == model(slots).insert(slot.question@, slot.entry@),
{
    let next = slots.push(slot);
    let key = slot.question@;
    let n = slots.len() as int;
    assert forall|a: int, b: int| 0 <= a < b < next.len() implies (#[trigger] next[a]).question@ != (
    #[trigger] next[b]).question@ by {
        assert(next[a] == slots[a]);
        if b < n {
            assert(next[b] == slots[b]);
        } else {
            assert(next[b] == slot);
            assert(slots[a].question@ != key);
        }
    }
    assert(next[n] == slot);
    assert forall|question: QuestionView|
        model(next).dom().contains(question) <==> #[trigger] model(slots).insert(
            key,
            slot.entry@,
        ).dom().contains(question) by {
        if occurs(next, question) {
            let a = position(next, question);
            if a < n {
                assert(next[a] == slots[a]);
            }
        }
        if occurs(slots, question) {
            let a = position(slots, question);
            assert(next[a] == slots[a]);
        }
        if question == key {
            assert(next[n].question@ == key);
        }
    }
    assert forall|question: QuestionView| model(next).dom().contains(question) implies model(
        next,
    )[question] == #[trigger] model(slots).insert(key, slot.entry@)[question] by {
        let a = position(next, question);
        lemma_model_at(next, a);
        if a < n {
            assert(next[a] == slots[a]);
            lemma_model_at(slots, a);
        }
    }
    assert(model(next) =~= model(slots).insert(key, slot.entry@));
}

/// The response cache.
pub struct Cache {
    slots: Vec<Slot>,
}

impl View for Cache {
    type V = CacheView;

    closed spec fn view(&self) -> CacheView {
        model(self.slots@)
    }
}

impl Cache {
    #[verifier::type_invariant]
    spec fn well_formed(self) -> bool {
        distinct(self.slots@)
    }

    /// An empty cache.
    pub fn new() -> (r: Cache)
        ensures
            r@ == Map::<QuestionView, EntryView>::empty(),
    {
        let r = Cache { slots: Vec::new() };
        assert(r@ =~= Map::<QuestionView, EntryView>::empty());
        r
    }

    /// The position of `question`, or the number of entries where it has
    /// none.
    fn locate(&self, question: &DnsQuestion) -> (r: usize)
        ensures
            r <= self.slots@.len(),
            r < self.slots@.len() ==> self.slots@[r as int].question@ == question@,
            r == self.slots@.len() ==> !occurs(self.slots@, question@),
    {
        let mut i: usize = 0;
        while i < self.slots.len()
            invariant
                i <= self.slots@.len(),
                forall|k: int| 0 <= k < i ==> (#[trigger] self.slots@[k]).question@ != question@,
            decreases self.slots.len() - i,
        {
            if self.slots[i].question.same_as(question) {
                return i;
            }
            i += 1;
        }
        i
    }

    /// Whether an entry, fresh or stale, is stored under `question`.
    pub fn contains(&self, question: &DnsQuestion) -> (r: bool)
        ensures
            r == self@.dom().contains(question@),
    {
        proof {
            use_type_invariant(self);
        }
        let at = self.locate(question);
        proof {
            if at < self.slots@.len() {
                lemma_model_at(self.slots@, at as int);
            }
        }
        at < self.slots.len()
    }

    /// Stores `response` under `question` at the instant `now`.
    pub fn set_at(&mut self, question: DnsQuestion, response: &DnsResponse, now: i64)
        ensures
            final(self)@ == stored(old(self)@, question@, response@, now as int),
    {
        proof {
            use_type_invariant(&*self);
        }
        if response.answer.len() == 0 {
            return ;
        }
        let ttl: u32 = response.answer[0].ttl;
        assert(response@.answer[0] == response.answer@[0]@);
        let entry = CacheEntry {
            valid_until: now as i128 + ttl as i128,
            response: response.clone(),
        };
        let at = self.locate(&question);
        let slot = Slot { question, entry };
        let mut slots: Vec<Slot> = Vec::new();
        std::mem::swap(&mut slots, &mut self.slots);
        if at < slots.len() {
            proof {
                lemma_model_replaced(slots@, at as int, slot);
            }
            slots.set(at, slot);
        } else {
            proof {
                lemma_model_added(slots@, slot);
            }
            slots.push(slot);
        }
        self.slots = slots;
    }

    /// The entry stored under `question`, unless it has run out at the
    /// instant `now`; an entry that has run out is removed.
    pub fn get_at(&mut self, question: &DnsQuestion, now: i64) -> (r: Option<CacheEntry>)
        ensures
            match fresh(old(self)@, question@, now as int) {
                Some(e) => r matches Some(found) && found@ == e,
                None => r is None,
            },
            final(self)@ == swept(old(self)@, question@, now as int),
    {
        proof {
            use_type_invariant(&*self);
        }
        let at = self.locate(question);
        if at == self.slots.len() {
            return None;
        }
        proof {
            lemma_model_at(self.slots@, at as int);
        }
        if (now as i128) < self.slots[at].entry.valid_until {
            Some(self.slots[at].entry.clone())
        } else {
            proof {
                lemma_model_without(self.slots@, at as int);
            }
            let mut slots: Vec<Slot> = Vec::new();
            std::mem::swap(&mut slots, &mut self.slots);
            slots.remove(at);
            self.slots = slots;
            None
        }
    }

    /// Stores `response` under `question` at the present instant.
    pub fn set(&mut self, question: DnsQuestion, response: &DnsResponse)
        ensures
            exists|now: i64| final(self)@ == stored(old(self)@, question@, response@, now as int),
    {
        let at = now();
        self.set_at(question, response, at);
    }

    /// The entry stored under `question`, unless it has run out at the
    /// present instant; an entry that has run out is removed.
    pub fn get(&mut self, question: &DnsQuestion) -> (r: Option<CacheEntry>)
        ensures
            exists|now: i64|
                {
                    &&& match fresh(old(self)@, question@, now as int) {
                        Some(e) => r matches Some(found) && found@ == e,
                        None => r is None,
                    }
                    &&& final(self)@ == swept(old(self)@, question@, now as int)
                },
    {
        let at = now();
        self.get_at(question, at)
    }
}

} // verus!
