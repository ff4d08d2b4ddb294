//! The queue of requests that were refused rate budget and wait to be
//! retried.
use vstd::prelude::*;
use std::collections::VecDeque;

verus! {

/// Requests buffered for a retry, oldest first, each with the number of
/// retries it has been through.
pub struct PendingRetries {
    counts: VecDeque<u32>,
}

impl PendingRetries {
    /// The retry counts, oldest request first.
    pub closed spec fn counts(&self) -> Seq<u32> {
        self.counts@
    }

    /// No buffered request.
    pub fn new() -> (q: Self)
        ensures
            q.counts() == Seq::<u32>::empty(),
    {
        PendingRetries { counts: VecDeque::new() }
    }

    /// Buffers a request that has not been retried yet.
    pub fn buffer(&mut self)
        ensures
            final(self).counts() == old(self).counts().push(0),
    {
        self.counts.push_back(0);
    }

    /// Counts one more retry of the oldest buffered request and returns its
    /// new count (saturating); nothing when no request is buffered.
    pub fn register_retry(&mut self) -> (r: Option<u32>)
        ensures
            old(self).counts().len() == 0 ==> r is None && final(self).counts() == old(self).counts(),
            old(self).counts().len() > 0 ==> {
                let c = if old(self).counts()[0] == u32::MAX {
                    u32::MAX
                } else {
                    (old(self).counts()[0] + 1) as u32
                };
                &&& r == Some(c)
                &&& final(self).counts() == old(self).counts().update(0, c)
            },
    {
        match self.counts.pop_front() {
            None => None,
            Some(count) => {
                let next = count.saturating_add(1);
                self.counts.push_front(next);
                assert(self.counts@ =~= old(self).counts@.update(0, next));
                Some(next)
            },
        }
    }

    /// Drops the oldest buffered request, once it was retried successfully.
    pub fn complete_one(&mut self)
        ensures
            old(self).counts().len() == 0 ==> final(self).counts() == old(self).counts(),
            old(self).counts().len() > 0 ==> final(self).counts() == old(self).counts().drop_first(),
    {
        let _ = self.counts.pop_front();
        assert(old(self).counts@.len() > 0 ==> old(self).counts@.subrange(
            1,
            old(self).counts@.len() as int,
        ) =~= old(self).counts@.drop_first());
    }

    /// The number of buffered requests.
    pub fn len(&self) -> (n: usize)
        ensures
            n == self.counts().len(),
    {
        self.counts.len()
    }
}

/// Whether a request that has been retried `retry_count` times may be
/// retried again under a budget of `max_retries`.
pub fn within_retry_budget(retry_count: u32, max_retries: u32) -> (r: bool)
    ensures
        r == (retry_count <= max_retries),
{
    retry_count <= max_retries
}

} // verus!
