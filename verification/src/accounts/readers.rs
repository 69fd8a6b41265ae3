//! Readers of an account's credentials. A reader may have the tokens exchanged, so an account has one
//! reader at a time: the others wait, in the order in which they came, and only then look at the
//! credentials.

use vstd::prelude::*;
use crate::text;

verus! {

/// Somebody who reads the credentials of an account, or waits to.
#[derive(Debug, PartialEq, Eq)]
pub struct Reader {
    pub number: u64,
    pub session_id: String,
}

/// The readers of all accounts, in the order in which they came.
#[derive(Debug, PartialEq, Eq)]
pub struct SessionReaders {
    pub queue: Vec<Reader>,
    pub next: u64,
}

/// The view of a reader.
#[verifier::ext_equal]
pub struct ReaderView {
    pub number: u64,
    pub session_id: Seq<char>,
}

impl View for Reader {
    type V = ReaderView;

    open spec fn view(&self) -> ReaderView {
        ReaderView { number: self.number, session_id: self.session_id@ }
    }
}

impl View for SessionReaders {
    type V = Seq<ReaderView>;

    open spec fn view(&self) -> Seq<ReaderView> {
        self.queue@.map_values(|reader: Reader| reader@)
    }
}

/// Whether no number occurs twice, and all are below `next`.
pub open spec fn are_numbered(queue: Seq<ReaderView>, next: u64) -> bool {
    &&& forall|i: int| 0 <= i < queue.len() ==> (#[trigger] queue[i]).number < next
    &&& forall|i: int, j: int|
        0 <= i < j < queue.len() ==> (#[trigger] queue[i]).number != (#[trigger] queue[j]).number
}

/// The place of a reader.
pub open spec fn place_of(queue: Seq<ReaderView>, number: u64, from: int) -> Option<int>
    decreases queue.len() - from,
{
    if from < 0 || from >= queue.len() {
        None
    } else if queue[from].number == number {
        Some(from)
    } else {
        place_of(queue, number, from + 1)
    }
}

proof fn lemma_place_of(queue: Seq<ReaderView>, number: u64, from: int)
    ensures
        place_of(queue, number, from) matches Some(at) ==> 0 <= from <= at < queue.len()
            && queue[at].number == number,
        place_of(queue, number, from) is None && from >= 0 ==> forall|i: int|
            from <= i < queue.len() ==> (#[trigger] queue[i]).number != number,
    decreases queue.len() - from,
{
    if 0 <= from < queue.len() && queue[from].number != number {
        lemma_place_of(queue, number, from + 1);
    }
}

/// Whether no reader before the place `at` is one of the same account.
pub open spec fn is_first(queue: Seq<ReaderView>, at: int) -> bool {
    forall|i: int| 0 <= i < at ==> (#[trigger] queue[i]).session_id != queue[at].session_id
}

/// Whether a reader may read: it is there, and is the first of its account.
pub open spec fn reads(queue: Seq<ReaderView>, number: u64) -> bool {
    place_of(queue, number, 0) matches Some(at) && is_first(queue, at)
}

/// The readers without one.
pub open spec fn without(queue: Seq<ReaderView>, number: u64) -> Seq<ReaderView> {
    match place_of(queue, number, 0) {
        Some(at) => queue.remove(at),
        None => queue,
    }
}

impl SessionReaders {
    /// Every reader has a number of its own.
    pub open spec fn is_well_formed(self) -> bool {
        are_numbered(self@, self.next)
    }

    /// Without readers.
    pub fn new() -> (res: SessionReaders)
        ensures
            res.is_well_formed(),
            res@ == Seq::<ReaderView>::empty(),
            res.next == 0,
    {
        let readers = SessionReaders { queue: Vec::new(), next: 0 };
        assert(readers@ =~= Seq::<ReaderView>::empty());
        readers
    }

    /// One more reader of an account, behind all others. Gives its number.
    pub fn enter(&mut self, session_id: &str) -> (res: u64)
        requires
            old(self).is_well_formed(),
            old(self).next < u64::MAX,
        ensures
            final(self).is_well_formed(),
            final(self)@ == old(self)@.push(ReaderView { number: res, session_id: session_id@ }),
            res == old(self).next,
            final(self).next == res + 1,
    {
        let number: u64 = self.next;
        self.queue.push(Reader { number, session_id: session_id.to_string() });
        self.next = number + 1;
        assert(self@ =~= old(self)@.push(ReaderView { number, session_id: session_id@ }));
        number
    }

    fn find(&self, number: u64) -> (res: Option<usize>)
        ensures
            match res {
                Some(at) => place_of(self@, number, 0) == Some(at as int),
                None => place_of(self@, number, 0) is None,
            },
    {
        let mut i: usize = 0;
        while i < self.queue.len()
            invariant
                i <= self.queue@.len(),
                place_of(self@, number, 0) == place_of(self@, number, i as int),
            decreases self.queue@.len() - i,
        {
            assert(self@[i as int] == self.queue@[i as int]@);
            if self.queue[i].number == number {
                return Some(i);
            }
            i = i + 1;
        }
        None
    }

    /// Whether it is a reader's turn.
    pub fn may_read(&self, number: u64) -> (res: bool)
        ensures
            res == reads(self@, number),
    {
        let at = match self.find(number) {
            Some(at) => at,
            None => {
                return false;
            },
        };
        proof {
            lemma_place_of(self@, number, 0);
        }
        let mut i: usize = 0;
        while i < at
            invariant
                i <= at < self.queue@.len(),
                place_of(self@, number, 0) == Some(at as int),
                forall|j: int|
                    0 <= j < i ==> (#[trigger] self@[j]).session_id != self@[at as int].session_id,
            decreases at - i,
        {
            assert(self@[i as int] == self.queue@[i as int]@);
            assert(self@[at as int] == self.queue@[at as int]@);
            if text::same_text(
                self.queue[i].session_id.as_str(),
                self.queue[at].session_id.as_str(),
            ) {
                return false;
            }
            i = i + 1;
        }
        true
    }

    /// A reader leaves, whether it has read or has given up waiting.
    pub fn leave(&mut self, number: u64)
        requires
            old(self).is_well_formed(),
        ensures
            final(self).is_well_formed(),
            final(self)@ == without(old(self)@, number),
            final(self).next == old(self).next,
    {
        match self.find(number) {
            Some(at) => {
                proof {
                    lemma_place_of(self@, number, 0);
                }
                self.queue.remove(at);
                assert(self@ =~= old(self)@.remove(at as int));
            },
            None => {},
        }
    }

    /// Whether nobody reads or waits.
    pub fn is_empty(&self) -> (res: bool)
        ensures
            res == (self@.len() == 0),
    {
        self.queue.len() == 0
    }
}

/// An account has one reader at a time: while one reads, every other reader of it waits.
pub proof fn accounts_have_one_reader_at_a_time(queue: Seq<ReaderView>, first: u64, second: u64)
    requires
        reads(queue, first),
        reads(queue, second),
        queue[place_of(queue, first, 0)->0].session_id == queue[place_of(
            queue,
            second,
            0,
        )->0].session_id,
    ensures
        first == second,
{
    lemma_place_of(queue, first, 0);
    lemma_place_of(queue, second, 0);
    let a = place_of(queue, first, 0)->0;
    let b = place_of(queue, second, 0)->0;
    if a < b {
        assert(queue[a].session_id != queue[b].session_id);
    } else if b < a {
        assert(queue[b].session_id != queue[a].session_id);
    }
}

/// When a reader leaves, the next reader of the account has its turn.
pub proof fn the_next_reader_has_its_turn(queue: Seq<ReaderView>, next: u64, first: int, second: int)
    requires
        are_numbered(queue, next),
        0 <= first < second < queue.len(),
        is_first(queue, first),
        queue[second].session_id == queue[first].session_id,
        forall|i: int|
            first < i < second ==> (#[trigger] queue[i]).session_id != queue[first].session_id,
    ensures
        reads(queue, queue[first].number),
        !reads(queue, queue[second].number),
        reads(without(queue, queue[first].number), queue[second].number),
{
    lemma_place_of(queue, queue[first].number, 0);
    lemma_place_of(queue, queue[second].number, 0);
    let left = without(queue, queue[first].number);
    lemma_place_of(left, queue[second].number, 0);
    assert(place_of(queue, queue[first].number, 0) == Some(first));
    assert(place_of(queue, queue[second].number, 0) == Some(second));
    assert(left[second - 1] == queue[second]);
    let at = place_of(left, queue[second].number, 0)->0;
    assert(at == second - 1) by {
        if at < first {
            assert(left[at] == queue[at]);
        } else {
            assert(left[at] == queue[at + 1]);
        }
    }
    assert forall|i: int| 0 <= i < at implies (#[trigger] left[i]).session_id
        != left[at].session_id by {
        if i < first {
            assert(left[i] == queue[i]);
        } else {
            assert(left[i] == queue[i + 1]);
        }
    }
}

} // verus!
