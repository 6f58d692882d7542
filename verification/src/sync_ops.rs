//! The pull/push exchange of opaque operation records.
//!
//! The host application keeps two shared containers: an append-only store of
//! locally created operations that remote peers pull from, and a FIFO queue
//! of operations pushed by peers, which the application drains.  The
//! transport only reads one field of a record — its logical clock string —
//! and carries the body through untouched.

use crate::text::{seq_lt, spec_decimal, str_lt, u64_to_string};
use vstd::prelude::*;

verus! {

/// One opaque operation record: the logical clock value the transport
/// orders by (absent on legacy records), and the serialized body carried
/// through unread.
#[derive(Debug)]
pub struct OpRecord {
    pub hlc: Option<String>,
    pub body: String,
}

/// A field-for-field copy of a record.
pub fn clone_record(r: &OpRecord) -> (c: OpRecord)
    ensures
        c == *r,
{
    OpRecord {
        hlc: match &r.hlc {
            Some(h) => Some(h.clone()),
            None => None,
        },
        body: r.body.clone(),
    }
}

/// A record is included in a pull after `since`: its logical clock is
/// lexicographically greater, and a record without one is always included.
pub open spec fn op_included(op: OpRecord, since: Seq<char>) -> bool {
    match op.hlc {
        Some(h) => seq_lt(since, h@),
        None => true,
    }
}

/// The predicate form of `op_included`.
pub open spec fn included_pred(since: Seq<char>) -> spec_fn(OpRecord) -> bool {
    |op: OpRecord| op_included(op, since)
}

/// Result of a pull: the returned operations in stored order, whether more
/// matching operations remain, and the logical clock of the last returned
/// operation.
#[derive(Debug)]
pub struct PullOutcome {
    pub operations: Vec<OpRecord>,
    pub has_more: bool,
    pub next_hlc: Option<String>,
}

/// One rejected operation of a push (the transport never rejects any; the
/// list exists for the wire shape).
#[derive(Debug)]
pub struct RejectedOp {
    pub op_id: String,
    pub reason: String,
}

/// Result of a push: everything is accepted, nothing rejected, and the
/// server's clock is echoed as a millisecond string.
#[derive(Debug)]
pub struct PushOutcome {
    pub accepted: usize,
    pub rejected: Vec<RejectedOp>,
    pub server_hlc: String,
}

/// Answers a pull: of the stored operations whose logical clock is greater
/// than `since_hlc` (or absent), the first `max_ops` in stored order;
/// `has_more` says whether matching operations remain beyond those returned,
/// and `next_hlc` echoes the clock of the last returned operation.
pub fn pull_ops(store: &Vec<OpRecord>, since_hlc: &str, max_ops: usize) -> (r: PullOutcome)
    ensures
        ({
            let matching = store@.filter(included_pred(since_hlc@));
            &&& r.operations@.len() == (if max_ops <= matching.len() {
                max_ops as int
            } else {
                matching.len() as int
            })
            &&& r.operations@ == matching.take(r.operations@.len() as int)
            &&& r.has_more == (matching.len() > r.operations@.len())
            &&& (r.operations@.len() == 0 ==> r.next_hlc is None)
            &&& (r.operations@.len() > 0 ==> r.next_hlc == r.operations@.last().hlc)
        }),
{
    let ghost p = included_pred(since_hlc@);
    let mut out: Vec<OpRecord> = Vec::new();
    let mut matched: usize = 0;
    let mut i: usize = 0;
    proof {
        reveal(Seq::filter);
        assert(store@.take(0).filter(p) =~= Seq::<OpRecord>::empty());
    }
    while i < store.len()
        invariant
            i <= store@.len(),
            p == included_pred(since_hlc@),
            matched == store@.take(i as int).filter(p).len(),
            out@.len() == (if max_ops <= matched {
                max_ops as int
            } else {
                matched as int
            }),
            out@ == store@.take(i as int).filter(p).take(out@.len() as int),
            matched <= i,
        decreases store@.len() - i,
    {
        let ghost m = store@.take(i as int).filter(p);
        proof {
            reveal(Seq::filter);
            assert(store@.take(i + 1).drop_last() =~= store@.take(i as int));
            assert(store@.take(i + 1).last() == store@[i as int]);
        }
        let included = match &store[i].hlc {
            Some(h) => str_lt(since_hlc, h.as_str()),
            None => true,
        };
        if included {
            proof {
                assert(p(store@[i as int]));
                assert(store@.take(i + 1).filter(p) =~= m.push(store@[i as int]));
            }
            if out.len() < max_ops {
                out.push(clone_record(&store[i]));
                proof {
                    assert(out@.len() == m.len() + 1);
                    assert(out@ =~= m.push(store@[i as int]).take(out@.len() as int));
                }
            } else {
                proof {
                    assert(m.push(store@[i as int]).take(out@.len() as int) =~= m.take(
                        out@.len() as int,
                    ));
                }
            }
            matched = matched + 1;
        } else {
            proof {
                assert(!p(store@[i as int]));
                assert(store@.take(i + 1).filter(p) =~= m);
            }
        }
        i = i + 1;
    }
    proof {
        assert(store@.take(store@.len() as int) =~= store@);
    }
    let has_more = matched > out.len();
    let next_hlc = if out.len() == 0 {
        None
    } else {
        match &out[out.len() - 1].hlc {
            Some(h) => Some(h.clone()),
            None => None,
        }
    };
    PullOutcome { operations: out, has_more, next_hlc }
}

/// Accepts a push: appends every operation to the pending queue in arrival
/// order and accepts the whole batch — validation of individual operations
/// is the host application's concern when it drains the queue.  The
/// response echoes the batch size, an empty rejection list and the server's
/// clock in milliseconds.
pub fn push_ops(queue: &mut Vec<OpRecord>, ops: &Vec<OpRecord>, now_millis: u64) -> (r:
    PushOutcome)
    ensures
        final(queue)@ == old(queue)@ + ops@,
        final(queue)@.len() == old(queue)@.len() + ops@.len(),
        r.accepted == ops@.len(),
        r.rejected@.len() == 0,
        r.server_hlc@ == spec_decimal(now_millis as nat),
{
    let count = ops.len();
    let mut i: usize = 0;
    while i < ops.len()
        invariant
            i <= ops@.len(),
            queue@ == old(queue)@ + ops@.take(i as int),
        decreases ops@.len() - i,
    {
        queue.push(clone_record(&ops[i]));
        proof {
            assert(old(queue)@ + ops@.take(i + 1) =~= (old(queue)@ + ops@.take(i as int)).push(
                ops@[i as int],
            ));
        }
        i = i + 1;
    }
    proof {
        assert(old(queue)@ + ops@.take(ops@.len() as int) =~= old(queue)@ + ops@);
    }
    PushOutcome {
        accepted: count,
        rejected: Vec::new(),
        server_hlc: u64_to_string(now_millis),
    }
}

} // verus!
