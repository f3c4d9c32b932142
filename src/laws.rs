use vstd::prelude::*;

use crate::address::HostAndPort;
use crate::follower_state::{is_request_for, previous_of};
use crate::log::{
    at_least_as_up_to_date, entries_after, entry_content, log_after_append, log_wf, prefix_matches, raised, slot_of,
    EntryModel, LogModel,
};
use crate::messages::{AppendEntries, RequestVote};
use crate::pending::{slots_of, PendingKey};
use crate::replica::quorum_of;
use crate::state::{after_observing, grants_vote, StateModel};
use crate::update_queue::{submitted, taken};

verus! {

/// Two entries record the same thing: same index, term and bytes.
pub open spec fn same_record(a: EntryModel, b: EntryModel) -> bool {
    a.index == b.index && a.term == b.term && a.bytes == b.bytes
}

/// Log Matching between two logs: wherever both hold an entry of the same term, they
/// hold the same records at that index and at every index before it.
pub open spec fn log_matching(a: LogModel, b: LogModel) -> bool {
    forall|i: int|
        0 <= i < a.entries.len() && i < b.entries.len() && #[trigger] a.entries[i].term
            == b.entries[i].term ==> forall|j: int|
            0 <= j <= i ==> same_record(#[trigger] a.entries[j], b.entries[j])
}

/// Log Matching is kept by every accepted `AppendEntries`: if a follower's log matches
/// the leader's, and the follower accepts the request built from the leader's log for
/// the follower's cursor `next`, the logs still match afterwards.
pub proof fn lemma_append_preserves_log_matching(
    follower: LogModel,
    leader: LogModel,
    next: u64,
    leader_commit: Option<u64>,
)
    requires
        log_wf(follower),
        log_wf(leader),
        log_matching(follower, leader),
        1 <= next <= leader.entries.len(),
        prefix_matches(follower, previous_of(leader, next).0, previous_of(leader, next).1),
    ensures
        log_matching(
            log_after_append(
                follower,
                previous_of(leader, next).0,
                Some((leader.entries[next - 1].term, leader.entries[next - 1].bytes)),
                leader_commit,
            ),
            leader,
        ),
{
    let prev = previous_of(leader, next).0;
    let s = slot_of(prev);
    assert(s == next - 1);
    let e = leader.entries[s];
    let after = log_after_append(follower, prev, Some((e.term, e.bytes)), leader_commit);
    if s < follower.entries.len() && follower.entries[s].term == e.term {
        assert(after.entries == follower.entries);
    } else {
        let f2 = after.entries;
        assert(f2 == follower.entries.subrange(0, s).push(
            EntryModel { index: (s + 1) as u64, term: e.term, bytes: e.bytes, acks: 1 },
        ));
        assert(e.index == s + 1);
        assert forall|i: int|
            0 <= i < f2.len() && i < leader.entries.len() && #[trigger] f2[i].term
                == leader.entries[i].term implies forall|j: int|
            0 <= j <= i ==> same_record(#[trigger] f2[j], leader.entries[j]) by {
            if i < s {
                assert(f2[i] == follower.entries[i]);
                assert forall|j: int| 0 <= j <= i implies same_record(
                    #[trigger] f2[j],
                    leader.entries[j],
                ) by {
                    assert(f2[j] == follower.entries[j]);
                    assert(same_record(follower.entries[j], leader.entries[j]));
                }
            } else {
                assert(i == s);
                assert forall|j: int| 0 <= j <= i implies same_record(
                    #[trigger] f2[j],
                    leader.entries[j],
                ) by {
                    if j < s {
                        assert(f2[j] == follower.entries[j]);
                        assert(follower.entries[s - 1].term == leader.entries[s - 1].term);
                        assert(same_record(follower.entries[j], leader.entries[j]));
                    }
                }
            }
        }
    }
}

/// Log Matching survives whatever a follower does with a request that the leader built
/// for the follower's cursor (as `replicate_log` and `retry_replicate_log` build them):
/// a refusal leaves the follower's log as it was, and an acceptance keeps the logs
/// matching.
pub proof fn lemma_request_keeps_log_matching(
    follower: LogModel,
    leader: LogModel,
    q: AppendEntries,
    next: u64,
    term: u64,
    leader_id: u64,
    correlation_id: u128,
)
    requires
        log_wf(follower),
        log_wf(leader),
        log_matching(follower, leader),
        1 <= next <= leader.entries.len() + 1,
        is_request_for(q, leader, next, term, leader_id, correlation_id),
    ensures
        prefix_matches(follower, q.previous_log_index, q.previous_log_term) ==> log_matching(
            log_after_append(follower, q.previous_log_index, entry_content(q.entry), q.leader_commit),
            leader,
        ),
{
    if prefix_matches(follower, q.previous_log_index, q.previous_log_term) {
        if next <= leader.entries.len() {
            let e = leader.entries[next - 1];
            assert(entry_content(q.entry) == Some((e.term, e.bytes)));
            lemma_append_preserves_log_matching(follower, leader, next, q.leader_commit);
        } else {
            assert(log_after_append(
                follower,
                q.previous_log_index,
                entry_content(q.entry),
                q.leader_commit,
            ).entries == follower.entries);
        }
    }
}

/// A request sent again for an unchanged cursor, term and log is the same request, and
/// once the follower has accepted it, handling it again leaves the follower's log as
/// the first acceptance left it.
pub proof fn lemma_resent_request_idempotent(
    follower: LogModel,
    leader: LogModel,
    first: AppendEntries,
    again: AppendEntries,
    next: u64,
    term: u64,
    leader_id: u64,
    first_id: u128,
    again_id: u128,
)
    requires
        log_wf(follower),
        is_request_for(first, leader, next, term, leader_id, first_id),
        is_request_for(again, leader, next, term, leader_id, again_id),
        prefix_matches(follower, first.previous_log_index, first.previous_log_term),
    ensures
        again.term == first.term,
        again.previous_log_index == first.previous_log_index,
        again.previous_log_term == first.previous_log_term,
        again.leader_commit == first.leader_commit,
        entry_content(again.entry) == entry_content(first.entry),
        ({
            let once = log_after_append(
                follower,
                first.previous_log_index,
                entry_content(first.entry),
                first.leader_commit,
            );
            &&& prefix_matches(once, again.previous_log_index, again.previous_log_term)
            &&& log_after_append(
                once,
                again.previous_log_index,
                entry_content(again.entry),
                again.leader_commit,
            ) == once
        }),
{
    lemma_append_entries_idempotent(
        follower,
        first.previous_log_index,
        first.previous_log_term,
        entry_content(first.entry),
        first.leader_commit,
    );
}

/// Observing a message never lowers a replica's term.
pub proof fn lemma_observing_never_lowers_term(s: StateModel, term: u64)
    ensures
        after_observing(s, term).term >= s.term,
        after_observing(s, term).term == if term > s.term {
            term
        } else {
            s.term
        },
{
}

/// A replica that has voted for one candidate in its term grants no other candidate
/// a vote in that term.
pub proof fn lemma_one_vote_per_term(s: StateModel, req: RequestVote)
    requires
        s.voted_for is Some,
        s.voted_for != Some(req.replica_id),
        req.term <= s.term,
    ensures
        !grants_vote(s, req),
{
}

/// Two quorums of a cluster of `n` share a replica.
pub proof fn lemma_quorums_intersect(n: nat, a: Set<nat>, b: Set<nat>) -> (v: nat)
    requires
        forall|x: nat| a.contains(x) ==> x < n,
        forall|x: nat| b.contains(x) ==> x < n,
        a.finite(),
        b.finite(),
        a.len() >= quorum_of(n as int),
        b.len() >= quorum_of(n as int),
    ensures
        a.contains(v),
        b.contains(v),
{
    let all = Set::new(|x: nat| x < n);
    lemma_naturals_below_len(n);
    let both = a.union(b);
    assert(both.subset_of(all));
    vstd::set_lib::lemma_len_subset(both, all);
    vstd::set_lib::lemma_set_intersect_union_lens(a, b);
    let common = a.intersect(b);
    assert(common.len() > 0);
    let v = common.choose();
    assert(common.contains(v));
    v
}

/// At most one leader per term: if each voter of a cluster of `n` gives its vote in a
/// term to one candidate (`vote_of`), and candidates `a` and `b` both gathered a quorum
/// of such votes, they are the same candidate.
pub proof fn lemma_one_leader_per_term(
    n: nat,
    vote_of: Map<nat, u64>,
    voters_a: Set<nat>,
    voters_b: Set<nat>,
    a: u64,
    b: u64,
)
    requires
        forall|v: nat| voters_a.contains(v) ==> v < n && vote_of.contains_key(v) && vote_of[v] == a,
        forall|v: nat| voters_b.contains(v) ==> v < n && vote_of.contains_key(v) && vote_of[v] == b,
        voters_a.finite(),
        voters_b.finite(),
        voters_a.len() >= quorum_of(n as int),
        voters_b.len() >= quorum_of(n as int),
    ensures
        a == b,
{
    let v = lemma_quorums_intersect(n, voters_a, voters_b);
}

/// Entry terms never decrease along the log.
pub open spec fn terms_non_decreasing(l: LogModel) -> bool {
    forall|i: int, j: int|
        0 <= i <= j < l.entries.len() ==> #[trigger] l.entries[i].term <= #[trigger] l.entries[j].term
}

/// A step towards Leader Completeness. If a quorum of a cluster of `n` holds an entry
/// of term `t` at index `k`, and a candidate whose log ends in
/// `(last_index, last_term)` won the votes of a quorum, each voter having found that
/// log at least as up to date as its own, then some replica both holds the entry and
/// voted for the candidate; and when that replica's terms never decrease along its
/// log, the candidate's last term is at least `t`.
pub proof fn lemma_winner_meets_a_holder(
    n: nat,
    logs: Map<nat, LogModel>,
    holders: Set<nat>,
    voters: Set<nat>,
    k: int,
    t: u64,
    last_index: u64,
    last_term: u64,
) -> (v: nat)
    requires
        forall|x: nat| holders.contains(x) ==> x < n,
        forall|x: nat| voters.contains(x) ==> x < n,
        holders.finite(),
        voters.finite(),
        holders.len() >= quorum_of(n as int),
        voters.len() >= quorum_of(n as int),
        forall|h: nat|
            holders.contains(h) ==> logs.contains_key(h) && 1 <= k <= logs[h].entries.len()
                && logs[h].entries[k - 1].term == t,
        forall|x: nat|
            voters.contains(x) ==> logs.contains_key(x) && at_least_as_up_to_date(
                logs[x],
                last_index,
                last_term,
            ),
    ensures
        holders.contains(v),
        voters.contains(v),
        terms_non_decreasing(logs[v]) ==> last_term >= t,
{
    let v = lemma_quorums_intersect(n, holders, voters);
    if terms_non_decreasing(logs[v]) {
        let l = logs[v];
        assert(l.entries[k - 1].term <= l.entries[l.entries.len() - 1].term);
        assert(crate::log::last_term(l) >= t);
    }
    v
}

/// The naturals below `n` are `n` in number.
proof fn lemma_naturals_below_len(n: nat)
    ensures
        Set::new(|v: nat| v < n).finite(),
        Set::new(|v: nat| v < n).len() == n,
    decreases n,
{
    if n == 0 {
        assert(Set::new(|v: nat| v < n) =~= Set::<nat>::empty());
    } else {
        lemma_naturals_below_len((n - 1) as nat);
        let smaller = Set::new(|v: nat| v < (n - 1) as nat);
        assert(Set::new(|v: nat| v < n) =~= smaller.insert((n - 1) as nat));
    }
}

/// The order in which `next_task` hands out the tasks of `queue`, asked until the
/// queue is empty: each time the first task, leaving `taken(queue)` behind.
pub open spec fn run_order<T>(queue: Seq<T>) -> Seq<T>
    decreases queue.len(),
{
    if queue.len() == 0 {
        Seq::empty()
    } else {
        seq![queue[0]].add(run_order(taken(queue)))
    }
}

/// The queue after each of `tasks` is accepted by `submit`, in order.
pub open spec fn submit_all<T>(queue: Seq<T>, tasks: Seq<T>) -> Seq<T>
    decreases tasks.len(),
{
    if tasks.len() == 0 {
        queue
    } else {
        submit_all(submitted(queue, tasks[0]), tasks.drop_first())
    }
}

/// A replica's handlers run in the order they were submitted: after the tasks waiting
/// in `queue`, `next_task` hands out exactly the submitted `tasks`, in order.
pub proof fn lemma_runs_in_submission_order<T>(queue: Seq<T>, tasks: Seq<T>)
    ensures
        run_order(submit_all(queue, tasks)) == queue + tasks,
{
    lemma_submit_all_appends(queue, tasks);
    lemma_run_order_is_identity(queue + tasks);
}

proof fn lemma_submit_all_appends<T>(queue: Seq<T>, tasks: Seq<T>)
    ensures
        submit_all(queue, tasks) == queue + tasks,
    decreases tasks.len(),
{
    if tasks.len() > 0 {
        lemma_submit_all_appends(queue.push(tasks[0]), tasks.drop_first());
        assert(queue.push(tasks[0]) + tasks.drop_first() =~= queue + tasks);
    } else {
        assert(queue + tasks =~= queue);
    }
}

proof fn lemma_run_order_is_identity<T>(queue: Seq<T>)
    ensures
        run_order(queue) == queue,
    decreases queue.len(),
{
    if queue.len() > 0 {
        lemma_run_order_is_identity(queue.drop_first());
        assert(seq![queue[0]].add(queue.drop_first()) =~= queue);
    }
}

/// Every registered slot leaves exactly once: once registered, the first of a response
/// or a cancellation finds it, any later one finds nothing, and the table is back to
/// what it held before the registration.
pub proof fn lemma_slot_leaves_once(table: Set<PendingKey>, key: PendingKey)
    requires
        !table.contains(key),
    ensures
        table.insert(key).contains(key),
        !table.insert(key).remove(key).contains(key),
        table.insert(key).remove(key) == table,
{
    assert(table.insert(key).remove(key) =~= table);
}

/// A broadcast leaves the pending table as it found it: registering a slot for every
/// peer under a fresh correlation id and then cancelling the slots still held (those
/// whose responses arrived are already gone) restores the table.
pub proof fn lemma_broadcast_restores_table(
    table: Set<PendingKey>,
    correlation_id: u128,
    peers: Seq<HostAndPort>,
    answered: Set<PendingKey>,
)
    requires
        forall|k: PendingKey| table.contains(k) ==> k.0 != correlation_id,
    ensures
        table.union(slots_of(correlation_id, peers, peers.len() as int)).difference(answered).difference(
            slots_of(correlation_id, peers, peers.len() as int),
        ) == table.difference(answered),
{
    assert(table.union(slots_of(correlation_id, peers, peers.len() as int)).difference(
        answered,
    ).difference(slots_of(correlation_id, peers, peers.len() as int)) =~= table.difference(answered));
}

/// The commit index never goes down.
pub proof fn lemma_commit_never_lowers(commit: Option<u64>, target: int)
    requires
        target <= u64::MAX,
    ensures
        commit is Some ==> raised(commit, target) is Some && raised(commit, target)->0 >= commit->0,
{
}

/// Receiving the same accepted `AppendEntries` a second time changes nothing: it is
/// accepted again and leaves the log as the first left it.
pub proof fn lemma_append_entries_idempotent(
    l: LogModel,
    prev: Option<u64>,
    prev_term: Option<u64>,
    entry: Option<(u64, Seq<u8>)>,
    leader_commit: Option<u64>,
)
    requires
        log_wf(l),
        prefix_matches(l, prev, prev_term),
    ensures
        prefix_matches(log_after_append(l, prev, entry, leader_commit), prev, prev_term),
        log_after_append(log_after_append(l, prev, entry, leader_commit), prev, entry, leader_commit)
            == log_after_append(l, prev, entry, leader_commit),
{
    let once = log_after_append(l, prev, entry, leader_commit);
    let s = slot_of(prev);
    match prev {
        None => {},
        Some(p) => {
            assert(once.entries.len() >= p);
            assert(once.entries[p - 1] == l.entries[p - 1]);
        },
    }
    match entry {
        None => {},
        Some(e) => {
            assert(once.entries[s].term == e.0);
        },
    }
    assert(entries_after(once, prev, entry) == once.entries);
}

/// On an empty log, a request with no previous index passes the consistency check and
/// one whose previous index is 0 (or any other) fails it, whatever its term.
pub proof fn lemma_empty_log_boundaries(l: LogModel, prev_term: Option<u64>, index: u64)
    requires
        l.entries.len() == 0,
    ensures
        prefix_matches(l, None, prev_term),
        !prefix_matches(l, Some(index), prev_term),
{
}

} // verus!
