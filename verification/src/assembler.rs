//! Pipeline assembler: consumes the scanner's event sequence in order and
//! builds, per function, the ordered sequence of pass records.
//!
//! Matching is deterministic and order-based. Each function has one pending
//! slot. A Before event fills the slot, discarding whatever unflushed Before
//! was there. An After event closes the slot: paired with the pending Before
//! when the pass names agree, otherwise synthesized — its "before" text is the
//! "after" text of the function's last finished record, or empty when there is
//! none, which reconstructs the pre-pass snapshot when the log holds only
//! post-pass dumps. A pending Before still open at the end of the input is
//! dropped: no half record is emitted. The first event naming a function fixes
//! that function's position in the result; later events update its pipeline in
//! place.

use vstd::prelude::*;

use crate::pipeline::FuncPipeline;
use crate::pipeline::FuncView;
use crate::pipeline::funcs_view;
use crate::pipeline::Pass;
use crate::pipeline::PassView;
use crate::pipeline::PipelineSet;
use crate::pipeline::passes_view;
use crate::scanner::Direction;
use crate::scanner::Event;
use crate::scanner::EventView;
use crate::scanner::events_view;
use crate::scanner::scan;
use crate::scanner::scan_spec;
use crate::scanner::str_eq;

verus! {

/// Mathematical model of the assembler's state for one function: its name,
/// its finished records, and the pending Before snapshot, if any, as a pass
/// name and body pair.
#[verifier::ext_equal]
pub struct EntryView {
    pub name: Seq<char>,
    pub passes: Seq<PassView>,
    pub pending: Option<(Seq<char>, Seq<char>)>,
}

/// Position of the first state entry named `f` at or after `i`, if any.
pub open spec fn find_entry_from(st: Seq<EntryView>, f: Seq<char>, i: int) -> Option<int>
    decreases st.len() - i,
{
    if i < 0 || i >= st.len() {
        None
    } else if st[i].name == f {
        Some(i)
    } else {
        find_entry_from(st, f, i + 1)
    }
}

/// The "before" text a record synthesized from a lone After event gets: the
/// last known state of the function, or empty text when none is known.
pub open spec fn last_after(ps: Seq<PassView>) -> Seq<char> {
    if ps.len() == 0 {
        Seq::empty()
    } else {
        ps.last().after
    }
}

/// One function's state after one of its events. A Before event overwrites
/// the pending slot; an After event appends a record — paired with the
/// pending snapshot when the pass names agree, synthesized otherwise — and
/// clears the slot.
pub open spec fn entry_step(e: EntryView, ev: EventView) -> EntryView {
    match ev.dir {
        Direction::Before => EntryView {
            name: e.name,
            passes: e.passes,
            pending: Some((ev.pass, ev.body)),
        },
        Direction::After => {
            let before = match e.pending {
                Some(pb) => if pb.0 == ev.pass {
                    pb.1
                } else {
                    last_after(e.passes)
                },
                None => last_after(e.passes),
            };
            EntryView {
                name: e.name,
                passes: e.passes.push(PassView { name: ev.pass, before, after: ev.body }),
                pending: None,
            }
        },
    }
}

/// The whole state after one event: the event's function is looked up by
/// name — appended with an empty pipeline if this event is its first
/// occurrence — and its entry takes the step.
pub open spec fn assemble_step(st: Seq<EntryView>, ev: EventView) -> Seq<EntryView> {
    let st1 = match find_entry_from(st, ev.func, 0) {
        Some(j) => st,
        None => st.push(EntryView { name: ev.func, passes: Seq::empty(), pending: None }),
    };
    let idx = match find_entry_from(st, ev.func, 0) {
        Some(j) => j,
        None => st.len() as int,
    };
    st1.update(idx, entry_step(st1[idx], ev))
}

/// The assembler's state after a whole event sequence, processed strictly in
/// scanner order from the empty state.
pub open spec fn assemble_spec(evs: Seq<EventView>) -> Seq<EntryView>
    decreases evs.len(),
{
    if evs.len() == 0 {
        Seq::empty()
    } else {
        assemble_step(assemble_spec(evs.drop_last()), evs.last())
    }
}

/// The final result read off a state: per function its name and finished
/// records; a still-pending Before is dropped.
pub open spec fn strip_pending(st: Seq<EntryView>) -> Seq<FuncView> {
    st.map_values(|e: EntryView| FuncView { name: e.name, passes: e.passes })
}

/// What `process` returns: the raw text scanned into events, the events
/// assembled into per-function pipelines, pending snapshots dropped.
pub open spec fn process_spec(s: Seq<char>) -> Seq<FuncView> {
    strip_pending(assemble_spec(scan_spec(s)))
}

/// The assembler's exec state for one function.
struct AsmEntry {
    name: String,
    passes: Vec<Pass>,
    pending: Option<(String, String)>,
}

impl View for AsmEntry {
    type V = EntryView;

    closed spec fn view(&self) -> EntryView {
        EntryView {
            name: self.name@,
            passes: passes_view(self.passes@),
            pending: match self.pending {
                Some(pb) => Some((pb.0@, pb.1@)),
                None => None,
            },
        }
    }
}

spec fn asm_view(s: Seq<AsmEntry>) -> Seq<EntryView> {
    s.map_values(|e: AsmEntry| e@)
}

/// Index of the state entry for this function name, if one exists.
fn find_asm(st: &Vec<AsmEntry>, name: &String) -> (r: Option<usize>)
    ensures
        match r {
            Some(j) => j < st@.len() && find_entry_from(asm_view(st@), name@, 0) == Some(j as int),
            None => find_entry_from(asm_view(st@), name@, 0) is None,
        },
{
    let mut i: usize = 0;
    while i < st.len()
        invariant
            i <= st@.len(),
            find_entry_from(asm_view(st@), name@, 0) == find_entry_from(
                asm_view(st@),
                name@,
                i as int,
            ),
        decreases st@.len() - i,
    {
        if str_eq(st[i].name.as_str(), name.as_str()) {
            return Some(i);
        }
        i += 1;
    }
    None
}

/// The "before" text for a record synthesized from a lone After event.
fn last_after_exec(ps: &Vec<Pass>) -> (r: String)
    ensures
        r@ == last_after(passes_view(ps@)),
{
    if ps.len() == 0 {
        String::new()
    } else {
        ps[ps.len() - 1].after.clone()
    }
}

proof fn lemma_passes_view_push(s: Seq<Pass>, p: Pass)
    ensures
        passes_view(s.push(p)) == passes_view(s).push(p@),
{
    assert(passes_view(s.push(p)) =~= passes_view(s).push(p@));
}

/// Feeds one event into the state.
fn apply_event(st: &mut Vec<AsmEntry>, ev: &Event)
    ensures
        asm_view(final(st)@) == assemble_step(asm_view(old(st)@), ev@),
{
    let ghost st0 = asm_view(st@);
    let idx: usize = match find_asm(st, &ev.function_name) {
        Some(j) => j,
        None => {
            let l = st.len();
            st.push(
                AsmEntry { name: ev.function_name.clone(), passes: Vec::new(), pending: None },
            );
            proof {
                assert(passes_view(Seq::<Pass>::empty()) =~= Seq::<PassView>::empty());
                assert(asm_view(st@) =~= st0.push(
                    EntryView { name: ev@.func, passes: Seq::empty(), pending: None },
                ));
            }
            l
        },
    };
    let ghost st1 = asm_view(st@);
    let ghost stx = st@;
    let mut e = st.remove(idx);
    match ev.direction {
        Direction::Before => {
            e.pending = Some((ev.pass_name.clone(), ev.body.clone()));
        },
        Direction::After => {
            let ghost passes0 = e.passes@;
            let pnd = e.pending;
            e.pending = None;
            let before: String = match pnd {
                Some(pb) => {
                    if str_eq(pb.0.as_str(), ev.pass_name.as_str()) {
                        pb.1
                    } else {
                        last_after_exec(&e.passes)
                    }
                },
                None => last_after_exec(&e.passes),
            };
            let rec = Pass { name: ev.pass_name.clone(), before, after: ev.body.clone() };
            proof {
                lemma_passes_view_push(passes0, rec);
            }
            e.passes.push(rec);
        },
    }
    proof {
        assert(e@ == entry_step(st1[idx as int], ev@));
    }
    st.insert(idx, e);
    proof {
        assert(st@ =~= stx.update(idx as int, e));
        assert(asm_view(stx.update(idx as int, e)) =~= st1.update(idx as int, e@));
    }
}

/// Assembles the whole event sequence, in scanner order, into the final
/// per-function pipelines.
pub fn assemble(events: &Vec<Event>) -> (r: PipelineSet)
    ensures
        r@ == strip_pending(assemble_spec(events_view(events@))),
{
    let ghost evs = events_view(events@);
    let mut st: Vec<AsmEntry> = Vec::new();
    let mut k: usize = 0;
    proof {
        assert(asm_view(st@) =~= Seq::<EntryView>::empty());
        assert(evs.take(0) =~= Seq::<EventView>::empty());
    }
    while k < events.len()
        invariant
            k <= events@.len(),
            evs == events_view(events@),
            asm_view(st@) == assemble_spec(evs.take(k as int)),
        decreases events@.len() - k,
    {
        let ev = &events[k];
        proof {
            assert(evs.take(k + 1).drop_last() =~= evs.take(k as int));
            assert(evs.take(k + 1).last() == ev@);
        }
        apply_event(&mut st, ev);
        k += 1;
    }
    proof {
        assert(evs.take(events@.len() as int) =~= evs);
    }
    let ghost full = asm_view(st@);
    let mut entries: Vec<FuncPipeline> = Vec::new();
    proof {
        assert(asm_view(st@) =~= full.skip(0));
        assert(funcs_view(entries@) =~= strip_pending(full).take(0));
    }
    while st.len() > 0
        invariant
            entries@.len() + st@.len() == full.len(),
            asm_view(st@) == full.skip(entries@.len() as int),
            funcs_view(entries@) == strip_pending(full).take(entries@.len() as int),
        decreases st@.len(),
    {
        let ghost j = entries@.len() as int;
        let ghost stp = st@;
        let e = st.remove(0);
        proof {
            assert(asm_view(stp)[0] == stp[0]@);
            assert(full.skip(j)[0] == full[j]);
            assert(e@ == full[j]);
            assert forall|i: int| 0 <= i < st@.len() implies asm_view(st@)[i] == full.skip(j + 1)[i] by {
                assert(st@[i] == stp.remove(0)[i]);
                assert(stp.remove(0)[i] == stp[i + 1]);
                assert(asm_view(stp)[i + 1] == stp[i + 1]@);
                assert(full.skip(j)[i + 1] == full[j + 1 + i]);
                assert(full.skip(j + 1)[i] == full[j + 1 + i]);
            }
            assert(asm_view(st@) =~= full.skip(j + 1));
        }
        entries.push(FuncPipeline { name: e.name, passes: e.passes });
        proof {
            assert(funcs_view(entries@) =~= strip_pending(full).take(j + 1));
        }
    }
    proof {
        assert(strip_pending(full).take(full.len() as int) =~= strip_pending(full));
    }
    PipelineSet { entries }
}

/// Parses a raw dump into per-function pass pipelines. The parse is a total
/// function of the text: a malformed marker line is treated as body text and
/// an empty input yields an empty result, never a failure. Functions come out
/// in first-occurrence order, and each function's passes in the order their
/// snapshots stood in the input, every body reproduced verbatim.
pub fn process(input: &str) -> (r: PipelineSet)
    ensures
        r@ == process_spec(input@),
{
    let events = scan(input);
    assemble(&events)
}

} // verus!
