//! The event log: the first messages of a run, and a window over the latest.
use vstd::prelude::*;
use std::collections::VecDeque;

verus! {

/// The characters of each message.
pub open spec fn texts(v: Seq<String>) -> Seq<Seq<char>> {
    v.map_values(|s: String| s@)
}

/// The log after one more message: it joins the first messages while they
/// number at most `max`; after that it joins the latest, and when those
/// already number `max` (and are not none), the oldest of them leaves.
pub open spec fn recorded(
    first: Seq<Seq<char>>,
    last: Seq<Seq<char>>,
    max: usize,
    msg: Seq<char>,
) -> (Seq<Seq<char>>, Seq<Seq<char>>) {
    if first.len() <= max {
        (first.push(msg), last)
    } else if last.len() == max && last.len() > 0 {
        (first, last.drop_first().push(msg))
    } else {
        (first, last.push(msg))
    }
}

/// The log after the messages `msgs`, starting from the first messages
/// `start` and no latest ones.
pub open spec fn log_after(start: Seq<Seq<char>>, max: usize, msgs: Seq<Seq<char>>) -> (
    Seq<Seq<char>>,
    Seq<Seq<char>>,
)
    decreases msgs.len(),
{
    if msgs.len() == 0 {
        (start, Seq::empty())
    } else {
        let (f, l) = log_after(start, max, msgs.drop_last());
        recorded(f, l, max, msgs.last())
    }
}

/// Calls `String::remove(0)`, which takes the first character of a
/// non-empty string away and gives it back.
#[verifier::external_body]
fn remove_first_char(s: &mut String) -> (c: char)
    requires
        old(s)@.len() > 0,
    ensures
        c == old(s)@[0],
        final(s)@ == old(s)@.drop_first(),
{
    s.remove(0)
}

/// The messages of a run.
pub struct EventLog {
    first: Vec<String>,
    last: VecDeque<String>,
    max_size: usize,
}

impl EventLog {
    /// The first messages.
    pub closed spec fn first_view(&self) -> Seq<Seq<char>> {
        texts(self.first@)
    }

    /// The latest messages.
    pub closed spec fn last_view(&self) -> Seq<Seq<char>> {
        texts(self.last@)
    }

    /// How many messages each part keeps.
    pub closed spec fn max_size_view(&self) -> usize {
        self.max_size
    }

    /// An empty log that keeps `max_size` messages in each part.
    pub fn new(max_size: usize) -> (l: Self)
        requires
            max_size < usize::MAX,
        ensures
            l.first_view() == Seq::<Seq<char>>::empty(),
            l.last_view() == Seq::<Seq<char>>::empty(),
            l.max_size_view() == max_size,
    {
        let l = EventLog {
            first: Vec::with_capacity(max_size),
            last: VecDeque::with_capacity(max_size + 1),
            max_size,
        };
        assert(l.first_view() =~= Seq::<Seq<char>>::empty());
        assert(l.last_view() =~= Seq::<Seq<char>>::empty());
        l
    }

    /// How many messages each part keeps.
    pub fn max_size(&self) -> (m: usize)
        ensures
            m == self.max_size_view(),
    {
        self.max_size
    }

    /// The first messages.
    pub fn first(&self) -> (v: &Vec<String>)
        ensures
            texts(v@) == self.first_view(),
    {
        &self.first
    }

    /// The latest messages.
    pub fn last(&self) -> (v: &VecDeque<String>)
        ensures
            texts(v@) == self.last_view(),
    {
        &self.last
    }

    /// Adds `msg` to the first messages, whatever their number.
    pub fn push_first(&mut self, msg: String)
        ensures
            final(self).first_view() == old(self).first_view().push(msg@),
            final(self).last_view() == old(self).last_view(),
            final(self).max_size_view() == old(self).max_size_view(),
    {
        self.first.push(msg);
        assert(self.first_view() =~= old(self).first_view().push(msg@));
    }

    /// Adds `msg` to the latest messages, whatever their number.
    pub fn push_last(&mut self, msg: String)
        ensures
            final(self).first_view() == old(self).first_view(),
            final(self).last_view() == old(self).last_view().push(msg@),
            final(self).max_size_view() == old(self).max_size_view(),
    {
        self.last.push_back(msg);
        assert(self.last_view() =~= old(self).last_view().push(msg@));
    }

    /// Records the message of one event.
    pub fn record(&mut self, msg: String)
        ensures
            (final(self).first_view(), final(self).last_view()) == recorded(
                old(self).first_view(),
                old(self).last_view(),
                old(self).max_size_view(),
                msg@,
            ),
            final(self).max_size_view() == old(self).max_size_view(),
    {
        if self.first.len() <= self.max_size {
            self.push_first(msg);
        } else {
            if self.last.len() == self.max_size {
                let _ = self.last.pop_front();
                proof {
                    if old(self).last@.len() > 0 {
                        assert(self.last_view() =~= old(self).last_view().drop_first());
                    } else {
                        assert(self.last_view() =~= old(self).last_view());
                    }
                }
            }
            self.push_last(msg);
        }
    }

    /// Takes the first character of the oldest latest message away.
    pub fn trim_front_of_last(&mut self)
        requires
            old(self).last_view().len() > 0,
            old(self).last_view()[0].len() > 0,
        ensures
            final(self).first_view() == old(self).first_view(),
            final(self).last_view() == old(self).last_view().update(0, old(self).last_view()[0].drop_first()),
            final(self).max_size_view() == old(self).max_size_view(),
    {
        match self.last.pop_front() {
            Some(mut s) => {
                let _ = remove_first_char(&mut s);
                self.last.push_front(s);
                assert(self.last_view() =~= old(self).last_view().update(0, old(self).last_view()[0].drop_first()));
            },
            None => {},
        }
    }
}

/// The log keeps the first messages until it holds `max + 1` of them, and
/// of the messages after those it keeps the latest `max`, in order.
pub proof fn law_log_keeps_first_and_latest(start: Seq<Seq<char>>, max: usize, msgs: Seq<Seq<char>>)
    requires
        max >= 1,
        start.len() <= max + 1,
    ensures
        ({
            let room = max + 1 - start.len();
            let (f, l) = log_after(start, max, msgs);
            &&& f == start + msgs.take(if msgs.len() <= room { msgs.len() as int } else { room })
            &&& l == if msgs.len() <= room {
                Seq::<Seq<char>>::empty()
            } else if msgs.len() - max > room {
                msgs.subrange(msgs.len() - max, msgs.len() as int)
            } else {
                msgs.subrange(room, msgs.len() as int)
            }
        }),
    decreases msgs.len(),
{
    let room = max + 1 - start.len();
    let n = msgs.len();
    if n == 0 {
        assert(start + msgs.take(0) =~= start);
    } else {
        let prev = msgs.drop_last();
        law_log_keeps_first_and_latest(start, max, prev);
        let (f0, l0) = log_after(start, max, prev);
        if n - 1 < room {
            assert(f0 == start + prev.take(n - 1));
            assert(f0.len() <= max);
            assert(start + msgs.take(n as int) =~= (start + prev.take(n - 1)).push(msgs.last()));
        } else {
            assert(f0 == start + prev.take(room));
            assert(start + prev.take(room) =~= start + msgs.take(room));
            assert(f0.len() == max + 1);
            if n - 1 == room {
                assert(l0.len() == 0);
                assert(msgs.subrange(room, n as int) =~= seq![msgs.last()]);
                if n - max > room {
                    assert(max == 0);
                }
            } else if n - 1 - max > room {
                assert(l0 == prev.subrange(n - 1 - max, n - 1));
                assert(l0.len() == max);
                assert(l0.drop_first().push(msgs.last()) =~= msgs.subrange(n - max, n as int));
            } else {
                assert(l0 == prev.subrange(room, n - 1));
                if n - max > room {
                    assert(l0.len() == max);
                    assert(l0.drop_first().push(msgs.last()) =~= msgs.subrange(n - max, n as int));
                } else {
                    assert(l0.len() < max || l0.len() == 0 || n - max <= room);
                    assert(prev.subrange(room, n - 1).push(msgs.last()) =~= msgs.subrange(room, n as int));
                }
            }
        }
    }
}

} // verus!
