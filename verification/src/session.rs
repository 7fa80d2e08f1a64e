//! What a run leaves behind: its verdict, and the trace of the instructions
//! it executed.

use vstd::prelude::*;
use std::collections::HashMap;

verus! {

broadcast use vstd::std_specs::hash::group_hash_axioms;

/// Verdict of a run. `Init` until a hook or the end of the run decides.
#[derive(Clone, Copy, Debug, PartialEq, Eq, Structural)]
pub enum RunState {
    Init,
    Success,
    Failed,
    Error,
}

/// What a trace holds for one instruction address: the instruction's size in
/// bytes and how often it was executed.
#[derive(Clone, Copy, Debug, PartialEq, Eq, Structural)]
pub struct TraceRecord {
    pub size: usize,
    pub count: usize,
}

/// A hit count after one more hit. It stays at the largest value a `usize`
/// can hold.
pub open spec fn next_count(count: usize) -> usize {
    if count < usize::MAX {
        (count + 1) as usize
    } else {
        count
    }
}

/// The trace after the instruction at `address`, `size` bytes wide, has been
/// executed once more: a first visit enters the address with its size and the
/// count 1, a later one raises the count and keeps the size.
pub open spec fn record_visit(trace: Map<u64, TraceRecord>, address: u64, size: usize) -> Map<
    u64,
    TraceRecord,
> {
    if trace.contains_key(address) {
        trace.insert(
            address,
            TraceRecord { size: trace[address].size, count: next_count(trace[address].count) },
        )
    } else {
        trace.insert(address, TraceRecord { size, count: 1 })
    }
}

/// The trace after the instructions `visits`, each an address with a size,
/// have been executed in that order, starting from `trace`.
pub open spec fn record_all(trace: Map<u64, TraceRecord>, visits: Seq<(u64, usize)>) -> Map<
    u64,
    TraceRecord,
>
    decreases visits.len(),
{
    if visits.len() == 0 {
        trace
    } else {
        record_visit(record_all(trace, visits.drop_last()), visits.last().0, visits.last().1)
    }
}

/// How often `address` occurs among `visits`.
pub open spec fn occurrences(visits: Seq<(u64, usize)>, address: u64) -> nat
    decreases visits.len(),
{
    if visits.len() == 0 {
        0
    } else {
        occurrences(visits.drop_last(), address) + if visits.last().0 == address {
            1nat
        } else {
            0nat
        }
    }
}

/// An address cannot occur more often than there are visits.
pub proof fn lemma_occurrences_bound(visits: Seq<(u64, usize)>, address: u64)
    ensures
        occurrences(visits, address) <= visits.len(),
    decreases visits.len(),
{
    if visits.len() > 0 {
        lemma_occurrences_bound(visits.drop_last(), address);
    }
}

/// A trace that starts empty holds exactly the addresses that were executed,
/// each with the number of times it was executed: a loop that runs `n` times
/// over `k` addresses leaves `k` entries, each with count `n`.
pub proof fn lemma_trace_counts_executions(visits: Seq<(u64, usize)>, address: u64)
    requires
        visits.len() <= usize::MAX,
    ensures
        record_all(Map::empty(), visits).contains_key(address) <==> occurrences(visits, address)
            > 0,
        record_all(Map::empty(), visits).contains_key(address) ==> record_all(
            Map::empty(),
            visits,
        )[address].count == occurrences(visits, address),
    decreases visits.len(),
{
    if visits.len() > 0 {
        lemma_trace_counts_executions(visits.drop_last(), address);
        lemma_occurrences_bound(visits.drop_last(), address);
    }
}

/// The visits of a loop: those of `body`, `times` times in a row.
pub open spec fn repeated(body: Seq<(u64, usize)>, times: nat) -> Seq<(u64, usize)>
    decreases times,
{
    if times == 0 {
        Seq::empty()
    } else {
        repeated(body, (times - 1) as nat) + body
    }
}

/// Whether no address occurs twice among `visits`.
pub open spec fn distinct_addresses(visits: Seq<(u64, usize)>) -> bool {
    forall|i: int, j: int|
        0 <= i < j < visits.len() ==> (#[trigger] visits[i]).0 != (#[trigger] visits[j]).0
}

/// The addresses that occur among `visits`.
pub open spec fn addresses(visits: Seq<(u64, usize)>) -> Set<u64> {
    Set::new(|address: u64| occurrences(visits, address) > 0)
}

/// Occurrences add up over visits in a row.
pub proof fn lemma_occurrences_add(
    first: Seq<(u64, usize)>,
    second: Seq<(u64, usize)>,
    address: u64,
)
    ensures
        occurrences(first + second, address) == occurrences(first, address) + occurrences(
            second,
            address,
        ),
    decreases second.len(),
{
    if second.len() == 0 {
        assert(first + second =~= first);
    } else {
        assert((first + second).drop_last() =~= first + second.drop_last());
        lemma_occurrences_add(first, second.drop_last(), address);
    }
}

/// Among visits of distinct addresses, the address of each visit occurs
/// once, and the addresses are as many as the visits.
pub proof fn lemma_distinct_occurrences(visits: Seq<(u64, usize)>)
    requires
        distinct_addresses(visits),
    ensures
        forall|i: int| 0 <= i < visits.len() ==> occurrences(visits, (#[trigger] visits[i]).0) == 1,
        forall|address: u64| #[trigger]
            occurrences(visits, address) > 0 ==> exists|i: int|
                0 <= i < visits.len() && (#[trigger] visits[i]).0 == address,
        addresses(visits).finite(),
        addresses(visits).len() == visits.len(),
    decreases visits.len(),
{
    if visits.len() == 0 {
        assert(addresses(visits) =~= Set::empty());
    } else {
        let before = visits.drop_last();
        let last = visits.last().0;
        lemma_distinct_occurrences(before);
        assert forall|i: int| 0 <= i < before.len() implies (#[trigger] before[i]) == visits[i] by {}
        if occurrences(before, last) > 0 {
            let i = choose|i: int| 0 <= i < before.len() && (#[trigger] before[i]).0 == last;
            assert(visits[i].0 == visits[visits.len() - 1].0);
        }
        assert forall|i: int| 0 <= i < visits.len() implies occurrences(
            visits,
            (#[trigger] visits[i]).0,
        ) == 1 by {
            if i < before.len() {
                assert(before[i] == visits[i]);
                assert(visits[i].0 != visits[visits.len() - 1].0);
            }
        }
        assert forall|address: u64| #[trigger]
            occurrences(visits, address) > 0 implies exists|i: int|
            0 <= i < visits.len() && (#[trigger] visits[i]).0 == address by {
            if address == last {
                assert(visits[visits.len() - 1].0 == address);
            } else {
                assert(occurrences(before, address) > 0);
                let i = choose|i: int| 0 <= i < before.len() && (#[trigger] before[i]).0 == address;
                assert(visits[i].0 == address);
            }
        }
        assert(addresses(visits) =~= addresses(before).insert(last));
        assert(!addresses(before).contains(last));
    }
}

/// In a loop, every address is executed once for each round of each of its
/// occurrences in the body.
pub proof fn lemma_repeated_occurrences(body: Seq<(u64, usize)>, times: nat, address: u64)
    ensures
        occurrences(repeated(body, times), address) == times * occurrences(body, address),
    decreases times,
{
    if times > 0 {
        lemma_repeated_occurrences(body, (times - 1) as nat, address);
        lemma_occurrences_add(repeated(body, (times - 1) as nat), body, address);
        assert(times * occurrences(body, address) == (times - 1) * occurrences(body, address)
            + occurrences(body, address)) by (nonlinear_arith);
    } else {
        assert(0 * occurrences(body, address) == 0) by (nonlinear_arith);
    }
}

/// The trace of a loop: a body of `k` distinct addresses executed `n` times,
/// from an empty trace, leaves `k` entries, one for each address of the body,
/// each with the count `n`.
pub proof fn lemma_loop_trace(body: Seq<(u64, usize)>, times: nat)
    requires
        distinct_addresses(body),
        times >= 1,
        repeated(body, times).len() <= usize::MAX,
    ensures
        record_all(Map::empty(), repeated(body, times)).dom() == addresses(body),
        record_all(Map::empty(), repeated(body, times)).len() == body.len(),
        forall|i: int|
            0 <= i < body.len() ==> record_all(Map::empty(), repeated(body, times)).contains_key(
                (#[trigger] body[i]).0,
            ) && record_all(Map::empty(), repeated(body, times))[body[i].0].count == times,
{
    let visits = repeated(body, times);
    let trace = record_all(Map::empty(), visits);
    lemma_distinct_occurrences(body);
    assert forall|address: u64| trace.contains_key(address) <==> addresses(body).contains(
        address,
    ) by {
        lemma_trace_counts_executions(visits, address);
        lemma_repeated_occurrences(body, times, address);
        assert(times * occurrences(body, address) > 0 <==> occurrences(body, address) > 0)
            by (nonlinear_arith)
            requires
                times >= 1,
        ;
    }
    assert(trace.dom() =~= addresses(body));
    assert forall|i: int| 0 <= i < body.len() implies trace.contains_key((#[trigger] body[i]).0)
        && trace[body[i].0].count == times by {
        lemma_trace_counts_executions(visits, body[i].0);
        lemma_repeated_occurrences(body, times, body[i].0);
        assert(times * 1 == times) by (nonlinear_arith);
    }
}

/// An entry keeps the size that its first visit gave it, and counts never
/// fall.
pub proof fn lemma_visit_keeps_entries(
    trace: Map<u64, TraceRecord>,
    address: u64,
    size: usize,
    other: u64,
)
    requires
        trace.contains_key(other),
    ensures
        record_visit(trace, address, size).contains_key(other),
        record_visit(trace, address, size)[other].size == trace[other].size,
        record_visit(trace, address, size)[other].count >= trace[other].count,
        other != address ==> record_visit(trace, address, size)[other] == trace[other],
{
}

/// Enters one execution of the instruction at `address`, `size` bytes wide,
/// into the trace.
pub fn record_trace(trace: &mut HashMap<u64, TraceRecord>, address: u64, size: usize)
    ensures
        final(trace)@ == record_visit(old(trace)@, address, size),
{
    let record = match trace.get(&address) {
        Some(found) => TraceRecord {
            size: found.size,
            count: if found.count < usize::MAX {
                found.count + 1
            } else {
                found.count
            },
        },
        None => TraceRecord { size, count: 1 },
    };
    trace.insert(address, record);
}

/// A copy of the trace.
pub fn copy_trace(trace: &HashMap<u64, TraceRecord>) -> (copy: HashMap<u64, TraceRecord>)
    ensures
        copy@ == trace@,
{
    let mut copy: HashMap<u64, TraceRecord> = HashMap::new();
    for entry in entries: trace.iter()
        invariant
            forall|i: int|
                0 <= i < entries.seq().len() ==> trace@.contains_key(*entries.seq()[i].0)
                    && trace@[*entries.seq()[i].0] == *entries.seq()[i].1,
            forall|i: int|
                0 <= i < entries.index() ==> copy@.contains_key(*entries.seq()[i].0)
                    && copy@[*entries.seq()[i].0] == *entries.seq()[i].1,
            forall|address: u64| #[trigger]
                copy@.contains_key(address) ==> trace@.contains_key(address) && copy@[address]
                    == trace@[address],
    {
        let (address, record) = entry;
        assert(trace@.contains_key(*entries.seq()[entries.index()].0));
        copy.insert(*address, *record);
    }
    assert(copy@ =~= trace@);
    copy
}

} // verus!
