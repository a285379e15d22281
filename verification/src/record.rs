//! The record stream adapter: derives the navigation-relevant facts — the
//! sorted, non-empty port set, the total input count, and a port's
//! concatenated input bytes — from the immutable, already-decoded sequence
//! of typed records.

use vstd::prelude::*;
use vstd::seq_lib::to_multiset_contains;

verus! {

/// One typed entry of a decoded recording, reduced to what navigation
/// reads: the tag, the port identifiers, the per-frame input bytes, and the
/// declared frame count. Every other record kind is `Other`.
pub enum Record {
    /// A contiguous run of per-frame input bytes for one port.
    InputChunk { port: u8, inputs: Vec<u8> },
    /// A single timed input event on one port.
    InputMoment { port: u8 },
    /// A declaration that a controller is attached to one port.
    PortController { port: u8 },
    /// The declared number of logical frames of the recording.
    TotalFrames { frames: usize },
    /// Any record kind irrelevant to navigation.
    Other,
}

/// The port a record mentions, if any.
pub open spec fn rec_port(r: Record) -> Option<u8> {
    match r {
        Record::InputChunk { port, .. } => Some(port),
        Record::InputMoment { port } => Some(port),
        Record::PortController { port } => Some(port),
        _ => None,
    }
}

/// The set of ports mentioned anywhere in the record sequence.
pub open spec fn mentioned_ports(rs: Seq<Record>) -> Set<u8> {
    Set::new(|p: u8| exists|i: int| 0 <= i < rs.len() && #[trigger] rec_port(rs[i]) == Some(p))
}

/// The value of the first `TotalFrames` record, if one exists.
pub open spec fn first_total(rs: Seq<Record>) -> Option<usize>
    decreases rs.len(),
{
    if rs.len() == 0 {
        None
    } else {
        match rs.first() {
            Record::TotalFrames { frames } => Some(frames),
            _ => first_total(rs.drop_first()),
        }
    }
}

/// The concatenation, in record order, of all `InputChunk` bytes for `port`.
pub open spec fn port_inputs(rs: Seq<Record>, port: u8) -> Seq<u8>
    decreases rs.len(),
{
    if rs.len() == 0 {
        Seq::empty()
    } else {
        port_inputs(rs.drop_last(), port) + (match rs.last() {
            Record::InputChunk { port: p, inputs } => if p == port {
                inputs@
            } else {
                Seq::empty()
            },
            _ => Seq::empty(),
        })
    }
}

/// The number of `InputMoment` records in the sequence.
pub open spec fn moment_count(rs: Seq<Record>) -> nat
    decreases rs.len(),
{
    if rs.len() == 0 {
        0
    } else {
        moment_count(rs.drop_last()) + (if rs.last() is InputMoment {
            1nat
        } else {
            0nat
        })
    }
}

pub open spec fn max_nat(a: nat, b: nat) -> nat {
    if a >= b {
        a
    } else {
        b
    }
}

/// The largest per-port input length over the common ports 1 through 4.
pub open spec fn chunk_max(rs: Seq<Record>) -> nat {
    max_nat(
        max_nat(port_inputs(rs, 1).len(), port_inputs(rs, 2).len()),
        max_nat(port_inputs(rs, 3).len(), port_inputs(rs, 4).len()),
    )
}

/// The total input count: the first `TotalFrames` value when one exists;
/// otherwise the largest per-port input length over ports 1 through 4;
/// otherwise the number of `InputMoment` records.
pub open spec fn spec_total(rs: Seq<Record>) -> nat {
    match first_total(rs) {
        Some(frames) => frames as nat,
        None => if chunk_max(rs) > 0 {
            chunk_max(rs)
        } else {
            moment_count(rs)
        },
    }
}

/// A mathematical count clamped to what a `usize` can hold.
pub open spec fn clamp_usize(n: nat) -> nat {
    if n > usize::MAX {
        usize::MAX as nat
    } else {
        n
    }
}

/// Strictly ascending: sorted with no duplicates.
pub open spec fn sorted_strict(s: Seq<u8>) -> bool {
    forall|i: int, j: int| 0 <= i < j < s.len() ==> s[i] < s[j]
}

/// What the derived port list is: strictly ascending, and exactly the
/// mentioned ports — or the default `[1]` when no record mentions a port.
pub open spec fn ports_view(rs: Seq<Record>, ps: Seq<u8>) -> bool {
    &&& sorted_strict(ps)
    &&& if mentioned_ports(rs).is_empty() {
        ps == seq![1u8]
    } else {
        forall|p: u8| ps.contains(p) <==> mentioned_ports(rs).contains(p)
    }
}

/// Insert `p` into a strictly ascending list, keeping it strictly ascending;
/// a no-op if `p` is already present.
fn insert_sorted(v: &mut Vec<u8>, p: u8)
    requires
        sorted_strict(old(v)@),
    ensures
        sorted_strict(final(v)@),
        forall|q: u8| final(v)@.contains(q) <==> (old(v)@.contains(q) || q == p),
{
    let mut idx: usize = 0;
    while idx < v.len() && v[idx] < p
        invariant
            idx <= v@.len(),
            sorted_strict(v@),
            v@ == old(v)@,
            forall|k: int| 0 <= k < idx ==> v@[k] < p,
        decreases v@.len() - idx,
    {
        idx += 1;
    }
    if idx < v.len() && v[idx] == p {
        proof {
            assert(v@.contains(p));
        }
        return;
    }
    v.insert(idx, p);
    proof {
        assert forall|q: u8| v@.contains(q) <==> (old(v)@.contains(q) || q == p) by {
            if v@.contains(q) {
                let k = choose|k: int| 0 <= k < v@.len() && v@[k] == q;
                if k < idx {
                    assert(old(v)@[k] == q);
                    assert(old(v)@.contains(q));
                } else if k > idx {
                    assert(old(v)@[k - 1] == q);
                    assert(old(v)@.contains(q));
                }
            }
            if old(v)@.contains(q) {
                let k = choose|k: int| 0 <= k < old(v)@.len() && old(v)@[k] == q;
                if k < idx {
                    assert(v@[k] == q);
                } else {
                    assert(v@[k + 1] == q);
                }
                assert(v@.contains(q));
            }
            if q == p {
                assert(v@[idx as int] == p);
                assert(v@.contains(p));
            }
        }
        assert forall|i: int, j: int| 0 <= i < j < v@.len() implies v@[i] < v@[j] by {
            if j < idx {
            } else if i < idx && j == idx {
                assert(v@[i] == old(v)@[i]);
            } else if i < idx && j > idx {
                assert(v@[j] == old(v)@[j - 1]);
            } else if i == idx {
                // v[idx] is p itself, and everything after it came from
                // old(v) at and past idx, where entries exceed p.
                assert(v@[j] == old(v)@[j - 1]);
            } else {
                assert(v@[i] == old(v)@[i - 1] && v@[j] == old(v)@[j - 1]);
            }
        }
    }
}

/// Detect all ports used in the recording: every port a record mentions,
/// strictly ascending, defaulting to port 1 when none is mentioned.
pub fn detect_ports(records: &Vec<Record>) -> (r: Vec<u8>)
    ensures
        ports_view(records@, r@),
        r@.len() >= 1,
{
    let rs = records;
    let n = rs.len();
    let mut ports: Vec<u8> = Vec::new();
    let mut i: usize = 0;
    while i < n
        invariant
            n == rs@.len(),
            i <= n,
            sorted_strict(ports@),
            forall|q: u8| ports@.contains(q) <==> mentioned_ports(rs@.take(i as int)).contains(q),
        decreases n - i,
    {
        let found: Option<u8> = match &rs[i] {
            Record::InputChunk { port, .. } => Some(*port),
            Record::InputMoment { port } => Some(*port),
            Record::PortController { port } => Some(*port),
            _ => None,
        };
        if let Some(p) = found {
            insert_sorted(&mut ports, p);
        }
        proof {
            assert(found == rec_port(rs@[i as int]));
            assert forall|q: u8|
                mentioned_ports(rs@.take(i + 1)).contains(q) <==> (mentioned_ports(
                    rs@.take(i as int),
                ).contains(q) || rec_port(rs@[i as int]) == Some(q)) by {
                if mentioned_ports(rs@.take(i + 1)).contains(q) {
                    let j = choose|j: int|
                        0 <= j < i + 1 && #[trigger] rec_port(rs@.take(i + 1)[j]) == Some(q);
                    if j < i {
                        assert(rs@.take(i as int)[j] == rs@.take(i + 1)[j]);
                        assert(mentioned_ports(rs@.take(i as int)).contains(q));
                    }
                }
                if mentioned_ports(rs@.take(i as int)).contains(q) {
                    let j = choose|j: int|
                        0 <= j < i && #[trigger] rec_port(rs@.take(i as int)[j]) == Some(q);
                    assert(rec_port(rs@.take(i + 1)[j]) == Some(q));
                    assert(mentioned_ports(rs@.take(i + 1)).contains(q));
                }
                if rec_port(rs@[i as int]) == Some(q) {
                    assert(rec_port(rs@.take(i + 1)[i as int]) == Some(q));
                    assert(mentioned_ports(rs@.take(i + 1)).contains(q));
                }
            }
        }
        i += 1;
    }
    proof {
        assert(rs@.take(n as int) =~= rs@);
    }
    if ports.len() == 0 {
        let ghost derived = ports@;
        ports.push(1);
        proof {
            assert forall|q: u8| !mentioned_ports(rs@).contains(q) by {
                assert(!derived.contains(q));
            }
            assert(mentioned_ports(rs@) =~= Set::<u8>::empty());
            assert(ports@ =~= seq![1u8]);
        }
    } else {
        proof {
            assert(ports@.contains(ports@[0]));
            assert(mentioned_ports(rs@).contains(ports@[0]));
        }
    }
    ports
}

/// The summed length of all `InputChunk` byte runs for `port`, saturating
/// at what a `usize` can hold.
fn port_input_len(records: &Vec<Record>, port: u8) -> (r: usize)
    ensures
        r as nat == clamp_usize(port_inputs(records@, port).len()),
{
    let n = records.len();
    let mut acc: usize = 0;
    let mut i: usize = 0;
    while i < n
        invariant
            n == records@.len(),
            i <= n,
            acc as nat == clamp_usize(port_inputs(records@.take(i as int), port).len()),
        decreases n - i,
    {
        if let Record::InputChunk { port: p, inputs } = &records[i] {
            if *p == port {
                acc = acc.saturating_add(inputs.len());
            }
        }
        proof {
            assert(records@.take(i + 1).drop_last() =~= records@.take(i as int));
            assert(records@.take(i + 1).last() == records@[i as int]);
        }
        i += 1;
    }
    proof {
        assert(records@.take(n as int) =~= records@);
    }
    acc
}

/// Count the total inputs of the recording, by the priority rule of
/// `spec_total`, saturating at what a `usize` can hold.
pub fn count_inputs(records: &Vec<Record>) -> (r: usize)
    ensures
        r as nat == clamp_usize(spec_total(records@)),
{
    let n = records.len();

    // A `TotalFrames` record, if present, decides the count outright.
    proof {
        assert(records@.skip(0) =~= records@);
    }
    let mut i: usize = 0;
    while i < n
        invariant
            n == records@.len(),
            i <= n,
            first_total(records@) == first_total(records@.skip(i as int)),
        decreases n - i,
    {
        proof {
            assert(records@.skip(i as int)[0] == records@[i as int]);
            assert(records@.skip(i as int).drop_first() =~= records@.skip(i + 1));
        }
        if let Record::TotalFrames { frames } = &records[i] {
            proof {
                assert(records@.skip(i as int).first() == records@[i as int]);
                assert(first_total(records@.skip(i as int)) == Some(records@[i as int]->frames));
                assert(first_total(records@) == Some(records@[i as int]->frames));
                assert(spec_total(records@) == records@[i as int]->frames as nat);
                assert(*frames == records@[i as int]->frames);
            }
            return *frames;
        }
        i += 1;
    }
    proof {
        assert(records@.skip(n as int) =~= Seq::<Record>::empty());
    }

    // Otherwise, the largest per-port input length over the common ports.
    let l1 = port_input_len(records, 1);
    let l2 = port_input_len(records, 2);
    let l3 = port_input_len(records, 3);
    let l4 = port_input_len(records, 4);
    let mut max_inputs = l1;
    if l2 > max_inputs {
        max_inputs = l2;
    }
    if l3 > max_inputs {
        max_inputs = l3;
    }
    if l4 > max_inputs {
        max_inputs = l4;
    }
    if max_inputs > 0 {
        return max_inputs;
    }

    // Fallback: the number of single input moments.
    let mut count: usize = 0;
    let mut i: usize = 0;
    while i < n
        invariant
            n == records@.len(),
            i <= n,
            count <= i,
            count as nat == moment_count(records@.take(i as int)),
        decreases n - i,
    {
        proof {
            assert(records@.take(i + 1).drop_last() =~= records@.take(i as int));
            assert(records@.take(i + 1).last() == records@[i as int]);
        }
        if let Record::InputMoment { .. } = &records[i] {
            count += 1;
        }
        i += 1;
    }
    proof {
        assert(records@.take(n as int) =~= records@);
    }
    count
}

/// Collect, in record order, all `InputChunk` bytes for `port`.
pub fn collect_port_inputs(records: &Vec<Record>, port: u8) -> (r: Vec<u8>)
    ensures
        r@ == port_inputs(records@, port),
{
    let n = records.len();
    let mut out: Vec<u8> = Vec::new();
    let mut i: usize = 0;
    while i < n
        invariant
            n == records@.len(),
            i <= n,
            out@ == port_inputs(records@.take(i as int), port),
        decreases n - i,
    {
        if let Record::InputChunk { port: p, inputs } = &records[i] {
            if *p == port {
                out.extend_from_slice(inputs.as_slice());
            }
        }
        proof {
            assert(records@.take(i + 1).drop_last() =~= records@.take(i as int));
            assert(records@.take(i + 1).last() == records@[i as int]);
            assert(out@ =~= port_inputs(records@.take(i + 1), port));
        }
        i += 1;
    }
    proof {
        assert(records@.take(n as int) =~= records@);
    }
    out
}

/// The priority rule for the total count: a stream that carries a
/// `TotalFrames` record yields exactly its value, whatever other records
/// are present. (When several are present the first one decides.)
pub proof fn lemma_total_frames_priority(rs: Seq<Record>, i: int)
    requires
        0 <= i < rs.len(),
        rs[i] is TotalFrames,
        forall|j: int| 0 <= j < i ==> !(#[trigger] rs[j] is TotalFrames),
    ensures
        first_total(rs) == Some(rs[i]->frames),
        spec_total(rs) == rs[i]->frames as nat,
    decreases i,
{
    if i == 0 {
        assert(rs.first() == rs[0]);
    } else {
        assert(!(rs[0] is TotalFrames));
        let tail = rs.drop_first();
        assert(tail[i - 1] == rs[i]);
        assert forall|j: int| 0 <= j < i - 1 implies !(#[trigger] tail[j] is TotalFrames) by {
            assert(tail[j] == rs[j + 1]);
        }
        lemma_total_frames_priority(tail, i - 1);
    }
}

/// Any port mentioned in `s1` is mentioned in every reordering `s2`.
proof fn lemma_mentioned_ports_subset(s1: Seq<Record>, s2: Seq<Record>)
    requires
        s1.to_multiset() == s2.to_multiset(),
    ensures
        forall|p: u8|
            mentioned_ports(s1).contains(p) ==> mentioned_ports(s2).contains(p),
{
    broadcast use to_multiset_contains;

    assert forall|p: u8|
        mentioned_ports(s1).contains(p) implies mentioned_ports(s2).contains(p) by {
        let i = choose|i: int| 0 <= i < s1.len() && #[trigger] rec_port(s1[i]) == Some(p);
        assert(s1.contains(s1[i]));
        assert(s2.to_multiset().count(s1[i]) > 0);
        assert(s2.contains(s1[i]));
        let j = choose|j: int| 0 <= j < s2.len() && s2[j] == s1[i];
        assert(rec_port(s2[j]) == Some(p));
    }
}

/// The set of mentioned ports does not depend on the order of the records.
pub proof fn lemma_mentioned_ports_permutation(s1: Seq<Record>, s2: Seq<Record>)
    requires
        s1.to_multiset() == s2.to_multiset(),
    ensures
        mentioned_ports(s1) == mentioned_ports(s2),
{
    lemma_mentioned_ports_subset(s1, s2);
    lemma_mentioned_ports_subset(s2, s1);
    assert(mentioned_ports(s1) =~= mentioned_ports(s2));
}

/// Two strictly ascending lists with the same members are the same list.
proof fn lemma_sorted_unique(s1: Seq<u8>, s2: Seq<u8>)
    requires
        sorted_strict(s1),
        sorted_strict(s2),
        forall|p: u8| s1.contains(p) <==> s2.contains(p),
    ensures
        s1 == s2,
    decreases s1.len(),
{
    if s1.len() == 0 {
        if s2.len() > 0 {
            assert(s2.contains(s2[0]));
            assert(s1.contains(s2[0]));
        }
        assert(s1 =~= s2);
    } else {
        assert(s1.contains(s1[0]));
        assert(s2.contains(s1[0]));
        assert(s2.len() > 0);
        let k = choose|k: int| 0 <= k < s2.len() && s2[k] == s1[0];
        assert(s2[0] <= s2[k]);
        assert(s2.contains(s2[0]));
        assert(s1.contains(s2[0]));
        let m = choose|m: int| 0 <= m < s1.len() && s1[m] == s2[0];
        assert(s1[0] <= s1[m]);
        assert(s1[0] == s2[0]);

        let t1 = s1.drop_first();
        let t2 = s2.drop_first();
        assert forall|i: int, j: int| 0 <= i < j < t1.len() implies t1[i] < t1[j] by {
            assert(t1[i] == s1[i + 1] && t1[j] == s1[j + 1]);
        }
        assert forall|i: int, j: int| 0 <= i < j < t2.len() implies t2[i] < t2[j] by {
            assert(t2[i] == s2[i + 1] && t2[j] == s2[j + 1]);
        }
        assert forall|p: u8| t1.contains(p) implies t2.contains(p) by {
            let a = choose|a: int| 0 <= a < t1.len() && t1[a] == p;
            assert(s1[a + 1] == p);
            assert(s1.contains(p));
            assert(s2.contains(p));
            let b = choose|b: int| 0 <= b < s2.len() && s2[b] == p;
            assert(p == s1[a + 1] > s1[0] == s2[0]);
            assert(b != 0);
            assert(t2[b - 1] == p);
        }
        assert forall|p: u8| t2.contains(p) implies t1.contains(p) by {
            let a = choose|a: int| 0 <= a < t2.len() && t2[a] == p;
            assert(s2[a + 1] == p);
            assert(s2.contains(p));
            assert(s1.contains(p));
            let b = choose|b: int| 0 <= b < s1.len() && s1[b] == p;
            assert(p == s2[a + 1] > s2[0] == s1[0]);
            assert(b != 0);
            assert(t1[b - 1] == p);
        }
        lemma_sorted_unique(t1, t2);
        assert forall|idx: int| 0 <= idx < s1.len() implies s1[idx] == s2[idx] by {
            if idx > 0 {
                assert(s1[idx] == t1[idx - 1] && s2[idx] == t2[idx - 1]);
            }
        }
        assert(s1 =~= s2);
    }
}

/// Port derivation is order-independent: any two port lists derived from
/// reorderings of the same records are the same list. Taking the two record
/// sequences equal, the derived list is also unique, so re-deriving it from
/// the same records yields the same result.
pub proof fn lemma_ports_order_independent(
    s1: Seq<Record>,
    s2: Seq<Record>,
    p1: Seq<u8>,
    p2: Seq<u8>,
)
    requires
        s1.to_multiset() == s2.to_multiset(),
        ports_view(s1, p1),
        ports_view(s2, p2),
    ensures
        p1 == p2,
{
    lemma_mentioned_ports_permutation(s1, s2);
    if mentioned_ports(s1).is_empty() {
    } else {
        lemma_sorted_unique(p1, p2);
    }
}

} // verus!
