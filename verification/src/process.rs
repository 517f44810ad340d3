use vstd::prelude::*;

use crate::cache::{
    Cache, CacheError, CacheRow, entries_view, fresh_bits, row_fresh, store_model, MAX_STAMP_SECS,
};
use crate::provider::{Provider, ProviderKind};

verus! {

/// The bitwise OR of the bits of every event naming `id`.
pub open spec fn acc_bits(events: Seq<(Seq<char>, u32)>, id: Seq<char>) -> u32
    decreases events.len(),
{
    if events.len() == 0 {
        0
    } else if events.last().0 == id {
        acc_bits(events.drop_last(), id) | events.last().1
    } else {
        acc_bits(events.drop_last(), id)
    }
}

/// Whether any event names `id`.
pub open spec fn has_event(events: Seq<(Seq<char>, u32)>, id: Seq<char>) -> bool {
    exists|e: int| 0 <= e < events.len() && events[e].0 == id
}

/// The write-back computed from a base lookup and the success events:
/// every base pair that received at least one new bit, in base order,
/// with the stored bits replaced by base OR accumulated. Pairs that
/// received nothing are left out, so their rows are not rewritten.
pub open spec fn merge_model(
    base: Seq<(Seq<char>, u32)>,
    events: Seq<(Seq<char>, u32)>,
) -> Seq<(Seq<char>, u32)>
    decreases base.len(),
{
    if base.len() == 0 {
        Seq::empty()
    } else {
        let prev = merge_model(base.drop_last(), events);
        let last = base.last();
        if has_event(events, last.0) {
            prev.push((last.0, last.1 | acc_bits(events, last.0)))
        } else {
            prev
        }
    }
}

/// A success event is sound when its bit belongs to some provider kind
/// and the base lookup shows that bit was not yet set for its
/// identifier: covered (provider, id) pairs are never submitted.
pub open spec fn event_valid(ev: (Seq<char>, u32), base: Seq<(Seq<char>, u32)>) -> bool {
    &&& exists|k: ProviderKind| ev.1 == k.spec_bits()
    &&& exists|i: int| 0 <= i < base.len() && base[i].0 == ev.0 && base[i].1 & ev.1 == 0
}

/// Every collected event is sound with respect to the base lookup.
pub open spec fn events_valid(events: Seq<(Seq<char>, u32)>, base: Seq<(Seq<char>, u32)>) -> bool {
    forall|e: int| 0 <= e < events.len() ==> event_valid(#[trigger] events[e], base)
}

/// The base lookup as a sequence of (identifier, fresh bitmask) pairs.
pub open spec fn lookup_view(
    t: Map<Seq<char>, CacheRow>,
    ids: Seq<Seq<char>>,
    now: u64,
) -> Seq<(Seq<char>, u32)> {
    Seq::new(ids.len(), |i: int| (ids[i], fresh_bits(t, ids[i], now)))
}

/// What one coordinated batch did: every (identifier, provider bit)
/// pair some provider newly accepted.
pub struct BatchReport {
    pub events: Vec<(String, u32)>,
}

/// The positions in `base` whose bitmask does not yet carry `kind_bit`:
/// exactly the identifiers that must still be sent to that provider.
pub fn ids_to_send(base: &Vec<(String, u32)>, kind_bit: u32) -> (r: Vec<usize>)
    ensures
        forall|n: int| 0 <= n < r@.len() ==> r@[n] < base@.len(),
        forall|n: int| 0 <= n < r@.len() ==> #[trigger] base@[r@[n] as int].1 & kind_bit == 0,
        forall|i: int|
            0 <= i < base@.len() && base@[i].1 & kind_bit == 0 ==> exists|n: int|
                0 <= n < r@.len() && r@[n] == i,
{
    let mut r: Vec<usize> = Vec::new();
    let mut i: usize = 0;
    while i < base.len()
        invariant
            i <= base@.len(),
            forall|n: int| 0 <= n < r@.len() ==> r@[n] < i,
            forall|n: int| 0 <= n < r@.len() ==> #[trigger] base@[r@[n] as int].1 & kind_bit == 0,
            forall|ii: int|
                0 <= ii < i && base@[ii].1 & kind_bit == 0 ==> exists|n: int|
                    0 <= n < r@.len() && r@[n] == ii,
        decreases base@.len() - i,
    {
        let ghost prev = r@;
        if base[i].1 & kind_bit == 0 {
            r.push(i);
            assert(r@[r@.len() - 1] == i as int);
        }
        i = i + 1;
        proof {
            assert forall|ii: int|
                0 <= ii < i && base@[ii].1 & kind_bit == 0 implies exists|n: int|
                0 <= n < r@.len() && r@[n] == ii by {
                if ii < i - 1 {
                    let n = choose|n: int| 0 <= n < prev.len() && prev[n] == ii;
                    assert(r@[n] == ii);
                } else {
                    assert(r@[r@.len() - 1] == ii);
                }
            }
        }
    }
    r
}

proof fn lemma_acc_bits_push(s: Seq<(Seq<char>, u32)>, x: (Seq<char>, u32), id: Seq<char>)
    ensures
        acc_bits(s.push(x), id) == if x.0 == id {
            acc_bits(s, id) | x.1
        } else {
            acc_bits(s, id)
        },
{
    assert(s.push(x).drop_last() =~= s);
    assert(s.push(x).last() == x);
}

proof fn lemma_has_event_push(s: Seq<(Seq<char>, u32)>, x: (Seq<char>, u32), id: Seq<char>)
    ensures
        has_event(s.push(x), id) == (has_event(s, id) || x.0 == id),
{
    if has_event(s, id) {
        let e = choose|e: int| 0 <= e < s.len() && s[e].0 == id;
        assert(s.push(x)[e] == s[e]);
    }
    if x.0 == id {
        assert(s.push(x)[s.len() as int] == x);
    }
    if has_event(s.push(x), id) {
        let e = choose|e: int| 0 <= e < s.push(x).len() && s.push(x)[e].0 == id;
        if e < s.len() {
            assert(s[e].0 == id);
        } else {
            assert(s.push(x)[e] == x);
        }
    }
}

/// The accumulated bits and whether any event named `id` at all.
fn acc_for(events: &Vec<(String, u32)>, id: &String) -> (r: (u32, bool))
    ensures
        r.0 == acc_bits(entries_view(events@), id@),
        r.1 == has_event(entries_view(events@), id@),
{
    let mut acc: u32 = 0;
    let mut found = false;
    let mut m: usize = 0;
    while m < events.len()
        invariant
            m <= events@.len(),
            acc == acc_bits(entries_view(events@).take(m as int), id@),
            found == has_event(entries_view(events@).take(m as int), id@),
        decreases events@.len() - m,
    {
        proof {
            assert(entries_view(events@).take(m as int + 1) =~= entries_view(events@).take(
                m as int,
            ).push(entries_view(events@)[m as int]));
            lemma_acc_bits_push(
                entries_view(events@).take(m as int),
                entries_view(events@)[m as int],
                id@,
            );
            lemma_has_event_push(
                entries_view(events@).take(m as int),
                entries_view(events@)[m as int],
                id@,
            );
        }
        if events[m].0 == *id {
            assert(entries_view(events@)[m as int].0 == id@);
            acc = acc | events[m].1;
            found = true;
        } else {
            assert(entries_view(events@)[m as int].0 != id@);
        }
        m = m + 1;
    }
    proof {
        assert(entries_view(events@).take(events@.len() as int) =~= entries_view(events@));
    }
    (acc, found)
}

/// Merge the success events into the base lookup: every identifier that
/// received at least one new bit is listed with its final bitmask (base
/// OR accumulated); identifiers that received nothing are left out.
pub fn merge_results(base: &Vec<(String, u32)>, events: &Vec<(String, u32)>) -> (r: Vec<
    (String, u32),
>)
    ensures
        entries_view(r@) == merge_model(entries_view(base@), entries_view(events@)),
{
    let mut r: Vec<(String, u32)> = Vec::new();
    let mut i: usize = 0;
    while i < base.len()
        invariant
            i <= base@.len(),
            entries_view(r@) =~= merge_model(
                entries_view(base@).take(i as int),
                entries_view(events@),
            ),
        decreases base@.len() - i,
    {
        let ghost bv = entries_view(base@);
        proof {
            assert(bv.take(i as int + 1).drop_last() =~= bv.take(i as int));
            assert(bv.take(i as int + 1).last() == bv[i as int]);
        }
        let (acc, found) = acc_for(events, &base[i].0);
        if found {
            let id_copy = base[i].0.clone();
            let bits = base[i].1 | acc;
            r.push((id_copy, bits));
            assert(entries_view(r@) =~= merge_model(
                bv.take(i as int + 1),
                entries_view(events@),
            ));
        } else {
            assert(entries_view(r@) =~= merge_model(
                bv.take(i as int + 1),
                entries_view(events@),
            ));
        }
        i = i + 1;
    }
    proof {
        assert(entries_view(base@).take(base@.len() as int) =~= entries_view(base@));
    }
    r
}

/// One provider's turn is faithful to the fan-out plan for its kind:
/// `attempted` lists exactly the base positions whose bitmask does not
/// carry the kind's bit — a position the bit already covers is never
/// attempted — and every appended event carries that kind's bit for an
/// attempted position's identifier; events already collected are kept.
pub open spec fn provider_run_ok(
    kind: ProviderKind,
    attempted: Seq<usize>,
    base: Seq<(Seq<char>, u32)>,
    old_events: Seq<(Seq<char>, u32)>,
    new_events: Seq<(Seq<char>, u32)>,
) -> bool {
    &&& forall|n: int| 0 <= n < attempted.len() ==> attempted[n] < base.len()
    &&& forall|n: int|
        0 <= n < attempted.len() ==> #[trigger] base[attempted[n] as int].1 & kind.spec_bits()
            == 0
    &&& forall|i: int|
        0 <= i < base.len() && base[i].1 & kind.spec_bits() == 0 ==> exists|n: int|
            0 <= n < attempted.len() && attempted[n] == i
    &&& new_events.len() >= old_events.len()
    &&& forall|e: int| 0 <= e < old_events.len() ==> new_events[e] == old_events[e]
    &&& forall|e: int|
        old_events.len() <= e < new_events.len() ==> (#[trigger] new_events[e]).1
            == kind.spec_bits() && (exists|n: int|
            0 <= n < attempted.len() && base[attempted[n] as int].0 == new_events[e].0)
}

/// Send to one provider every identifier its bit does not yet cover,
/// sequentially, and append one event per newly accepted identifier;
/// identifiers whose base bitmask already carries the provider's bit
/// are skipped. Returns the attempted base positions; the postcondition
/// pins them to exactly the uncovered positions.
pub fn run_provider<P: Provider>(
    p: &mut P,
    base: &Vec<(String, u32)>,
    events: &mut Vec<(String, u32)>,
) -> (attempted: Vec<usize>)
    ensures
        final(events)@.len() >= old(events)@.len(),
        forall|e: int|
            0 <= e < old(events)@.len() ==> final(events)@[e] == old(events)@[e],
        exists|k: ProviderKind|
            provider_run_ok(
                k,
                attempted@,
                entries_view(base@),
                entries_view(old(events)@),
                entries_view(final(events)@),
            ),
{
    let kind = p.kind();
    let bit = kind.bits();
    let list = ids_to_send(base, bit);
    let mut n: usize = 0;
    while n < list.len()
        invariant
            forall|nn: int| 0 <= nn < list@.len() ==> list@[nn] < base@.len(),
            forall|nn: int|
                0 <= nn < list@.len() ==> #[trigger] base@[list@[nn] as int].1 & bit == 0,
            forall|i: int|
                0 <= i < base@.len() && base@[i].1 & bit == 0 ==> exists|nn: int|
                    0 <= nn < list@.len() && list@[nn] == i,
            bit == kind.spec_bits(),
            n <= list@.len(),
            events@.len() >= old(events)@.len(),
            forall|e: int| 0 <= e < old(events)@.len() ==> events@[e] == old(events)@[e],
            forall|e: int|
                old(events)@.len() <= e < events@.len() ==> (#[trigger] entries_view(
                    events@,
                )[e]).1 == bit && (exists|nn: int|
                    0 <= nn < list@.len() && entries_view(base@)[list@[nn] as int].0
                        == entries_view(events@)[e].0),
        decreases list@.len() - n,
    {
        let i = list[n];
        match p.send_avatar_id(base[i].0.as_str()) {
            Ok(true) => {
                let id_copy = base[i].0.clone();
                let ghost prev = events@;
                events.push((id_copy, bit));
                proof {
                    let ev = entries_view(events@)[events@.len() - 1];
                    assert(ev.0 == base@[i as int].0@ && ev.1 == bit);
                    assert(entries_view(base@)[list@[n as int] as int].0 == ev.0);
                    assert forall|e: int|
                        old(events)@.len() <= e < events@.len() implies (#[trigger] entries_view(
                        events@,
                    )[e]).1 == bit && (exists|nn: int|
                        0 <= nn < list@.len() && entries_view(base@)[list@[nn] as int].0
                            == entries_view(events@)[e].0) by {
                        if e < prev.len() {
                            assert(events@[e] == prev[e]);
                            assert(entries_view(events@)[e] == entries_view(prev)[e]);
                            assert((entries_view(prev)[e]).1 == bit && (exists|nn: int|
                                0 <= nn < list@.len() && entries_view(base@)[list@[nn] as int].0
                                    == entries_view(prev)[e].0));
                        } else {
                            assert(entries_view(events@)[e] == ev);
                            assert(entries_view(base@)[list@[n as int] as int].0 == ev.0);
                        }
                    }
                }
            },
            _ => {},
        }
        n = n + 1;
    }
    proof {
        assert(provider_run_ok(
            kind,
            list@,
            entries_view(base@),
            entries_view(old(events)@),
            entries_view(events@),
        ));
    }
    list
}

/// Coordinate one batch: look up the base bitmasks, fan the batch out
/// to every provider (each skipping identifiers its bit already
/// covers — `run_provider`'s contract pins the attempted set to exactly
/// the uncovered positions), merge the success events, and persist base
/// OR accumulated for exactly the identifiers that gained a bit — all
/// in one store call. A provider failure only loses that provider's
/// bits; a store failure leaves the cache untouched and is returned.
pub fn process_with_cache<P: Provider>(
    providers: Vec<P>,
    cache: &mut Cache,
    avatar_ids: &Vec<String>,
    now: u64,
) -> (r: Result<BatchReport, CacheError>)
    requires
        now <= MAX_STAMP_SECS,
    ensures
        r matches Ok(rep) ==> {
            let base = lookup_view(old(cache).table(), avatar_ids.deep_view(), now);
            &&& events_valid(entries_view(rep.events@), base)
            &&& final(cache).table() == store_model(
                old(cache).table(),
                merge_model(base, entries_view(rep.events@)),
                now,
            )
        },
        r is Err ==> final(cache).table() == old(cache).table(),
{
    let base = match cache.check_all_ids(avatar_ids, now) {
        Ok(b) => b,
        Err(e) => {
            return Err(e);
        },
    };
    let ghost basev = entries_view(base@);
    proof {
        assert(basev =~= lookup_view(cache.table(), avatar_ids.deep_view(), now));
    }

    let mut remaining = providers;
    let mut events: Vec<(String, u32)> = Vec::new();
    while remaining.len() > 0
        invariant
            basev == entries_view(base@),
            events_valid(entries_view(events@), basev),
        decreases remaining@.len(),
    {
        let mut p = match remaining.pop() {
            Some(p) => p,
            None => {
                break ;
            },
        };
        let ghost prev = events@;
        let _attempted = run_provider(&mut p, &base, &mut events);
        proof {
            let k = choose|k: ProviderKind|
                provider_run_ok(
                    k,
                    _attempted@,
                    entries_view(base@),
                    entries_view(prev),
                    entries_view(events@),
                );
            assert forall|e: int| 0 <= e < events@.len() implies event_valid(
                #[trigger] entries_view(events@)[e],
                basev,
            ) by {
                if e < prev.len() {
                    assert(events@[e] == prev[e]);
                    assert(entries_view(events@)[e] == entries_view(prev)[e]);
                    assert(event_valid(entries_view(prev)[e], basev));
                } else {
                    let ev = entries_view(events@)[e];
                    assert(ev.1 == k.spec_bits());
                    let n = choose|n: int|
                        0 <= n < _attempted@.len() && entries_view(base@)[_attempted@[n] as int].0
                            == ev.0;
                    assert(entries_view(base@)[_attempted@[n] as int].1 & ev.1 == 0);
                }
            }
        }
    }

    let writeback = merge_results(&base, &events);
    match cache.store_avatar_ids_with_providers(&writeback, now) {
        Ok(_) => Ok(BatchReport { events }),
        Err(e) => Err(e),
    }
}

/// A submission event is well-formed when its bit belongs to some
/// provider kind and its identifier is one of the submitted batch.
pub open spec fn submission_event_ok(ev: (Seq<char>, u32), ids: Seq<Seq<char>>) -> bool {
    &&& exists|k: ProviderKind| ev.1 == k.spec_bits()
    &&& exists|i: int| 0 <= i < ids.len() && ids[i] == ev.0
}

/// Submit every identifier to every provider with no cache involved,
/// and report the (identifier, provider bit) pairs newly accepted.
/// Provider failures only lose that pair.
pub fn process_without_cache<P: Provider>(providers: Vec<P>, avatar_ids: &Vec<String>) -> (r: Vec<
    (String, u32),
>)
    ensures
        forall|e: int|
            0 <= e < r@.len() ==> submission_event_ok(
                #[trigger] entries_view(r@)[e],
                avatar_ids.deep_view(),
            ),
{
    let mut remaining = providers;
    let mut events: Vec<(String, u32)> = Vec::new();
    while remaining.len() > 0
        invariant
            forall|e: int|
                0 <= e < events@.len() ==> submission_event_ok(
                    #[trigger] entries_view(events@)[e],
                    avatar_ids.deep_view(),
                ),
        decreases remaining@.len(),
    {
        let mut p = match remaining.pop() {
            Some(p) => p,
            None => {
                break ;
            },
        };
        let kind = p.kind();
        let bit = kind.bits();
        let mut i: usize = 0;
        while i < avatar_ids.len()
            invariant
                bit == kind.spec_bits(),
                i <= avatar_ids@.len(),
                forall|e: int|
                    0 <= e < events@.len() ==> submission_event_ok(
                        #[trigger] entries_view(events@)[e],
                        avatar_ids.deep_view(),
                    ),
            decreases avatar_ids@.len() - i,
        {
            match p.send_avatar_id(avatar_ids[i].as_str()) {
                Ok(true) => {
                    let id_copy = avatar_ids[i].clone();
                    let ghost prev = events@;
                    events.push((id_copy, bit));
                    proof {
                        let ev = entries_view(events@)[events@.len() - 1];
                        assert(ev.0 == avatar_ids@[i as int]@ && ev.1 == kind.spec_bits());
                        assert(avatar_ids.deep_view()[i as int] == ev.0);
                        assert(submission_event_ok(ev, avatar_ids.deep_view()));
                        assert forall|e: int| 0 <= e < events@.len() implies submission_event_ok(
                            #[trigger] entries_view(events@)[e],
                            avatar_ids.deep_view(),
                        ) by {
                            if e < prev.len() {
                                assert(events@[e] == prev[e]);
                                assert(entries_view(events@)[e] == entries_view(prev)[e]);
                                assert(submission_event_ok(
                                    entries_view(prev)[e],
                                    avatar_ids.deep_view(),
                                ));
                            } else {
                                assert(entries_view(events@)[e] == ev);
                            }
                        }
                    }
                },
                _ => {},
            }
            i = i + 1;
        }
    }
    events
}

/// What the per-identifier pipeline did with one identifier: whether a
/// fresh cache record made it skip every send, and whether the
/// identifier was recorded back into the cache afterwards.
pub struct AvatarOutcome {
    pub id: String,
    pub skipped: bool,
    pub recorded: bool,
}

/// View of a list of outcomes as (identifier, skipped, recorded).
pub open spec fn outcomes_view(os: Seq<AvatarOutcome>) -> Seq<(Seq<char>, bool, bool)> {
    Seq::new(os.len(), |k: int| (os[k].id@, os[k].skipped, os[k].recorded))
}

/// A record stamped fresh at `now`, its provider bits kept (none for a
/// new row): the effect of recording one processed identifier.
pub open spec fn touch_model(
    t: Map<Seq<char>, CacheRow>,
    id: Seq<char>,
    now: u64,
) -> Map<Seq<char>, CacheRow> {
    t.insert(
        id,
        (
            Some(now),
            if t.dom().contains(id) {
                t[id].1
            } else {
                0u32
            },
        ),
    )
}

/// The table after the per-identifier pipeline: each recorded outcome
/// touches its row, in order; the others leave the table alone.
pub open spec fn apply_outcomes(
    t: Map<Seq<char>, CacheRow>,
    os: Seq<(Seq<char>, bool, bool)>,
    now: u64,
) -> Map<Seq<char>, CacheRow>
    decreases os.len(),
{
    if os.len() == 0 {
        t
    } else {
        let prev = apply_outcomes(t, os.drop_last(), now);
        if os.last().2 {
            touch_model(prev, os.last().0, now)
        } else {
            prev
        }
    }
}

/// Each outcome's skip flag is truthful: an identifier was skipped
/// exactly when the table, as left by the outcomes before it, held a
/// fresh record of it — and a skipped identifier is never recorded.
pub open spec fn outcomes_consistent(
    t: Map<Seq<char>, CacheRow>,
    os: Seq<(Seq<char>, bool, bool)>,
    now: u64,
) -> bool
    decreases os.len(),
{
    if os.len() == 0 {
        true
    } else {
        let prev_t = apply_outcomes(t, os.drop_last(), now);
        &&& outcomes_consistent(t, os.drop_last(), now)
        &&& os.last().1 == (prev_t.dom().contains(os.last().0) && row_fresh(
            prev_t[os.last().0].0,
            now,
        ))
        &&& (os.last().1 ==> !os.last().2)
    }
}

/// The per-identifier pipeline: each identifier is skipped when the
/// cache holds it fresh; otherwise it is sent to every provider, and
/// recorded back into the cache only when no provider errored (so a
/// failed batch is retried on the next sighting). A cache failure stops
/// the batch at once; the outcomes already applied stay applied.
pub fn process_avatars<P: Provider>(
    providers: Vec<P>,
    cache: &mut Cache,
    avatar_ids: &Vec<String>,
    now: u64,
) -> (r: Result<Vec<AvatarOutcome>, CacheError>)
    requires
        now <= MAX_STAMP_SECS,
    ensures
        r matches Ok(os) ==> {
            &&& os@.len() == avatar_ids@.len()
            &&& forall|k: int| 0 <= k < os@.len() ==> (#[trigger] os@[k].id)@ == avatar_ids@[k]@
            &&& outcomes_consistent(old(cache).table(), outcomes_view(os@), now)
            &&& final(cache).table() == apply_outcomes(
                old(cache).table(),
                outcomes_view(os@),
                now,
            )
        },
        r is Err ==> exists|os: Seq<(Seq<char>, bool, bool)>|
            outcomes_consistent(old(cache).table(), os, now) && final(cache).table()
                == apply_outcomes(old(cache).table(), os, now),
{
    let mut providers = providers;
    let mut outcomes: Vec<AvatarOutcome> = Vec::new();
    let mut i: usize = 0;
    while i < avatar_ids.len()
        invariant
            now <= MAX_STAMP_SECS,
            i <= avatar_ids@.len(),
            outcomes@.len() == i,
            forall|k: int|
                0 <= k < outcomes@.len() ==> (#[trigger] outcomes@[k].id)@ == avatar_ids@[k]@,
            outcomes_consistent(old(cache).table(), outcomes_view(outcomes@), now),
            cache.table() == apply_outcomes(old(cache).table(), outcomes_view(outcomes@), now),
        decreases avatar_ids@.len() - i,
    {
        let ghost prev_view = outcomes_view(outcomes@);
        let proceed = match cache.check_avatar_id(&avatar_ids[i], now) {
            Ok(p) => p,
            Err(e) => {
                proof {
                    let os = outcomes_view(outcomes@);
                    assert(outcomes_consistent(old(cache).table(), os, now) && cache.table()
                        == apply_outcomes(old(cache).table(), os, now));
                }
                return Err(e);
            },
        };
        if !proceed {
            outcomes.push(AvatarOutcome { id: avatar_ids[i].clone(), skipped: true, recorded: false });
            proof {
                assert(outcomes_view(outcomes@).drop_last() =~= prev_view);
                assert(outcomes_view(outcomes@).last() == (avatar_ids@[i as int]@, true, false));
            }
        } else {
            let mut all_ok = true;
            let mut stack: Vec<P> = Vec::new();
            while providers.len() > 0
                invariant
                    cache.table() == apply_outcomes(
                        old(cache).table(),
                        outcomes_view(outcomes@),
                        now,
                    ),
                decreases providers@.len(),
            {
                match providers.pop() {
                    Some(p) => {
                        stack.push(p);
                    },
                    None => {
                        break ;
                    },
                }
            }
            while stack.len() > 0
                invariant
                    i < avatar_ids@.len(),
                    cache.table() == apply_outcomes(
                        old(cache).table(),
                        outcomes_view(outcomes@),
                        now,
                    ),
                decreases stack@.len(),
            {
                let mut p = match stack.pop() {
                    Some(p) => p,
                    None => {
                        break ;
                    },
                };
                match p.send_avatar_id(avatar_ids[i].as_str()) {
                    Ok(_) => (),
                    Err(_) => {
                        all_ok = false;
                    },
                }
                providers.push(p);
            }
            let recorded = if all_ok {
                match cache.send_avatar_id(&avatar_ids[i], now) {
                    Ok(_) => true,
                    Err(e) => {
                        proof {
                            let os = outcomes_view(outcomes@);
                            assert(outcomes_consistent(old(cache).table(), os, now)
                                && cache.table() == apply_outcomes(
                                old(cache).table(),
                                os,
                                now,
                            ));
                        }
                        return Err(e);
                    },
                }
            } else {
                false
            };
            outcomes.push(AvatarOutcome {
                id: avatar_ids[i].clone(),
                skipped: false,
                recorded,
            });
            proof {
                assert(outcomes_view(outcomes@).drop_last() =~= prev_view);
                assert(outcomes_view(outcomes@).last() == (
                    avatar_ids@[i as int]@,
                    false,
                    recorded,
                ));
            }
        }
        i = i + 1;
    }
    Ok(outcomes)
}

/// Merging produces no pair for an identifier no event names.
proof fn lemma_merge_no_pair(
    base: Seq<(Seq<char>, u32)>,
    events: Seq<(Seq<char>, u32)>,
    id: Seq<char>,
)
    requires
        !has_event(events, id),
    ensures
        forall|j: int|
            0 <= j < merge_model(base, events).len() ==> (#[trigger] merge_model(
                base,
                events,
            )[j]).0 != id,
    decreases base.len(),
{
    if base.len() > 0 {
        lemma_merge_no_pair(base.drop_last(), events, id);
        let m = merge_model(base, events);
        let prev = merge_model(base.drop_last(), events);
        assert forall|j: int| 0 <= j < m.len() implies (#[trigger] m[j]).0 != id by {
            if j < prev.len() {
                assert(m[j] == prev[j]);
            } else {
                assert(m[j].0 == base.last().0);
                assert(has_event(events, base.last().0));
            }
        }
    }
}

/// Storing entries that never name an identifier leaves its row — its
/// presence and its value — exactly as it was.
proof fn lemma_store_model_untouched(
    t: Map<Seq<char>, CacheRow>,
    entries: Seq<(Seq<char>, u32)>,
    now: u64,
    id: Seq<char>,
)
    requires
        forall|j: int| 0 <= j < entries.len() ==> (#[trigger] entries[j]).0 != id,
    ensures
        store_model(t, entries, now).dom().contains(id) == t.dom().contains(id),
        t.dom().contains(id) ==> store_model(t, entries, now)[id] == t[id],
    decreases entries.len(),
{
    if entries.len() > 0 {
        assert(forall|j: int|
            0 <= j < entries.drop_last().len() ==> (#[trigger] entries.drop_last()[j]).0 != id);
        lemma_store_model_untouched(t, entries.drop_last(), now, id);
        assert(entries.last().0 != id);
    }
}

/// An identifier that received no new bit is not rewritten: after the
/// coordinator's merge and store, its cache row — present or absent,
/// stamp and bits alike — is exactly what it was before the batch.
pub proof fn lemma_no_new_bits_not_rewritten(
    t: Map<Seq<char>, CacheRow>,
    base: Seq<(Seq<char>, u32)>,
    events: Seq<(Seq<char>, u32)>,
    id: Seq<char>,
    now: u64,
)
    requires
        !has_event(events, id),
    ensures
        store_model(t, merge_model(base, events), now).dom().contains(id) == t.dom().contains(id),
        t.dom().contains(id) ==> store_model(t, merge_model(base, events), now)[id] == t[id],
{
    lemma_merge_no_pair(base, events, id);
    lemma_store_model_untouched(t, merge_model(base, events), now, id);
}

/// No event carries a bit, no bit appears: if every event's bitmask is
/// clear of kind `k`'s bit, then every merged pair's final bitmask has
/// `k`'s bit exactly as its base pair had it. One provider failing (so
/// contributing no events) can never set or clear another's bit.
pub proof fn lemma_failed_provider_isolated(
    base: Seq<(Seq<char>, u32)>,
    events: Seq<(Seq<char>, u32)>,
    k: ProviderKind,
)
    requires
        forall|e: int| 0 <= e < events.len() ==> #[trigger] events[e].1 & k.spec_bits() == 0,
    ensures
        forall|j: int|
            0 <= j < merge_model(base, events).len() ==> exists|i: int|
                0 <= i < base.len() && #[trigger] merge_model(base, events)[j].0 == base[i].0
                    && merge_model(base, events)[j].1 & k.spec_bits() == base[i].1
                    & k.spec_bits(),
    decreases base.len(),
{
    let kb = k.spec_bits();
    lemma_acc_bits_no_bit(events, kb);
    assert(forall|x: u32, y: u32, c: u32|
        y & c == 0 ==> (x | y) & c == (x & c)) by (bit_vector);
    if base.len() > 0 {
        lemma_failed_provider_isolated(base.drop_last(), events, k);
        let m = merge_model(base, events);
        let prev = merge_model(base.drop_last(), events);
        assert forall|j: int| 0 <= j < m.len() implies exists|i: int|
            0 <= i < base.len() && #[trigger] m[j].0 == base[i].0 && m[j].1 & kb == base[i].1
                & kb by {
            if j < prev.len() {
                assert(m[j] == prev[j]);
                let i = choose|i: int|
                    0 <= i < base.drop_last().len() && prev[j].0 == base.drop_last()[i].0
                        && prev[j].1 & kb == base.drop_last()[i].1 & kb;
                assert(base.drop_last()[i] == base[i]);
            } else {
                let last = base.last();
                assert(m[j] == (last.0, last.1 | acc_bits(events, last.0)));
                assert(acc_bits(events, last.0) & kb == 0);
                assert((last.1 | acc_bits(events, last.0)) & kb == last.1 & kb);
                assert(m[j].0 == base[base.len() - 1].0);
            }
        }
    }
}

/// Auxiliary: if no event carries bit-set `c`, the accumulated OR does
/// not either.
proof fn lemma_acc_bits_no_bit(events: Seq<(Seq<char>, u32)>, c: u32)
    requires
        forall|e: int| 0 <= e < events.len() ==> #[trigger] events[e].1 & c == 0,
    ensures
        forall|id: Seq<char>| #[trigger] acc_bits(events, id) & c == 0,
    decreases events.len(),
{
    assert(forall|x: u32, y: u32, cc: u32|
        x & cc == 0 && y & cc == 0 ==> (x | y) & cc == 0) by (bit_vector);
    assert(0u32 & c == 0) by (bit_vector);
    if events.len() > 0 {
        lemma_acc_bits_no_bit(events.drop_last(), c);
        assert(events[events.len() - 1].1 & c == 0);
        assert forall|id: Seq<char>| #[trigger] acc_bits(events, id) & c == 0 by {
            assert(acc_bits(events.drop_last(), id) & c == 0);
        }
    }
}

} // verus!
