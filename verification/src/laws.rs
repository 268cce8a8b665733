//! The laws of the parse, stated over the specification model and proved once
//! and for all: what `process` returns for the characteristic input shapes,
//! and the ordering guarantees every result carries.

use vstd::prelude::*;

use crate::assembler::EntryView;
use crate::assembler::assemble_spec;
use crate::assembler::assemble_step;
use crate::assembler::entry_step;
use crate::assembler::find_entry_from;
use crate::assembler::last_after;
use crate::assembler::process_spec;
use crate::assembler::strip_pending;
use crate::pipeline::FuncView;
use crate::pipeline::PassView;
use crate::scanner::Direction;
use crate::scanner::EventView;
use crate::scanner::first_nl_from;
use crate::scanner::lemma_first_nl;
use crate::scanner::marker_spec;
use crate::scanner::scan_acc;
use crate::scanner::scan_spec;

verus! {

/// Law: an input with zero markers — whatever other text it holds — yields a
/// result with zero function names.
pub proof fn lemma_no_markers_no_functions(s: Seq<char>)
    requires
        scan_spec(s) == Seq::<EventView>::empty(),
    ensures
        process_spec(s) == Seq::<FuncView>::empty(),
{
    assert(strip_pending(assemble_spec(scan_spec(s))) =~= Seq::<FuncView>::empty());
}

/// Where the line beginning at position `i` ends: at the next newline, or at
/// the end of the input.
pub open spec fn line_end_at(s: Seq<char>, i: int) -> int {
    match first_nl_from(s, i) {
        Some(j) => j,
        None => s.len() as int,
    }
}

/// Whether position `i` begins a line: the start of the input, or the
/// position right after a newline.
pub open spec fn is_line_start(s: Seq<char>, i: int) -> bool {
    i == 0 || (0 < i <= s.len() && s[i - 1] == '\n')
}

proof fn lemma_scan_no_markers(s: Seq<char>, i: int)
    requires
        0 <= i <= s.len(),
        forall|k: int|
            0 <= k <= s.len() && is_line_start(s, k) ==> marker_spec(
                s.subrange(k, line_end_at(s, k)),
            ) is None,
        is_line_start(s, i) || i == s.len(),
    ensures
        scan_acc(s, i, None) == Seq::<EventView>::empty(),
    decreases s.len() - i,
{
    if i < s.len() {
        lemma_first_nl(s, i);
        let ce = line_end_at(s, i);
        let se = if ce < s.len() {
            ce + 1
        } else {
            s.len() as int
        };
        assert(marker_spec(s.subrange(i, ce)) is None);
        lemma_scan_no_markers(s, se);
    }
}

/// Law: an input none of whose lines is a marker line — whatever else it
/// holds — yields a result with zero function names, stated over the raw text.
pub proof fn lemma_no_marker_lines_no_functions(s: Seq<char>)
    requires
        forall|k: int|
            0 <= k <= s.len() && is_line_start(s, k) ==> marker_spec(
                s.subrange(k, line_end_at(s, k)),
            ) is None,
    ensures
        process_spec(s) == Seq::<FuncView>::empty(),
{
    lemma_scan_no_markers(s, 0);
    lemma_no_markers_no_functions(s);
}

/// Law: an input whose dump is exactly one Before/After pair for pass `p` on
/// function `f` yields exactly one record, both bodies verbatim.
pub proof fn lemma_single_pair(s: Seq<char>, f: Seq<char>, p: Seq<char>, b: Seq<char>, a: Seq<char>)
    requires
        scan_spec(s) == seq![
            EventView { dir: Direction::Before, pass: p, func: f, body: b },
            EventView { dir: Direction::After, pass: p, func: f, body: a },
        ],
    ensures
        process_spec(s) == seq![
            FuncView { name: f, passes: seq![PassView { name: p, before: b, after: a }] },
        ],
{
    let evs = scan_spec(s);
    let e0 = EventView { dir: Direction::Before, pass: p, func: f, body: b };
    let e1 = EventView { dir: Direction::After, pass: p, func: f, body: a };
    assert(evs.drop_last() =~= seq![e0]);
    assert(seq![e0].drop_last() =~= Seq::<EventView>::empty());
    assert(assemble_spec(Seq::<EventView>::empty()) == Seq::<EntryView>::empty());
    let st1 = seq![EntryView { name: f, passes: Seq::empty(), pending: Some((p, b)) }];
    assert(assemble_step(Seq::<EntryView>::empty(), e0) =~= st1);
    assert(assemble_spec(seq![e0]) == st1);
    let st2 = seq![
        EntryView {
            name: f,
            passes: seq![PassView { name: p, before: b, after: a }],
            pending: None,
        },
    ];
    assert(find_entry_from(st1, f, 0) == Some(0int));
    assert(st1.update(0, entry_step(st1[0], e1)) =~= st2);
    assert(assemble_spec(evs) == assemble_step(st1, e1));
    assert(assemble_step(st1, e1) =~= st2);
    assert(strip_pending(st2) =~= seq![
        FuncView { name: f, passes: seq![PassView { name: p, before: b, after: a }] },
    ]);
}

/// Law: when a function's dumps hold only After snapshots — passes `p1` then
/// `p2` on function `f` — both passes still get records: the first record's
/// "before" is empty, and each later record's "before" is the previous
/// record's "after", reconstructing the pre-pass snapshots from the last
/// known state.
pub proof fn lemma_after_only_chains(
    s: Seq<char>,
    f: Seq<char>,
    p1: Seq<char>,
    p2: Seq<char>,
    a1: Seq<char>,
    a2: Seq<char>,
)
    requires
        scan_spec(s) == seq![
            EventView { dir: Direction::After, pass: p1, func: f, body: a1 },
            EventView { dir: Direction::After, pass: p2, func: f, body: a2 },
        ],
    ensures
        process_spec(s) == seq![
            FuncView {
                name: f,
                passes: seq![
                    PassView { name: p1, before: Seq::empty(), after: a1 },
                    PassView { name: p2, before: a1, after: a2 },
                ],
            },
        ],
{
    let evs = scan_spec(s);
    let e0 = EventView { dir: Direction::After, pass: p1, func: f, body: a1 };
    let e1 = EventView { dir: Direction::After, pass: p2, func: f, body: a2 };
    assert(evs.drop_last() =~= seq![e0]);
    assert(seq![e0].drop_last() =~= Seq::<EventView>::empty());
    assert(assemble_spec(Seq::<EventView>::empty()) == Seq::<EntryView>::empty());
    let r1 = PassView { name: p1, before: Seq::empty(), after: a1 };
    let r2 = PassView { name: p2, before: a1, after: a2 };
    let st1 = seq![EntryView { name: f, passes: seq![r1], pending: None }];
    assert(last_after(Seq::<PassView>::empty()) == Seq::<char>::empty());
    assert(assemble_step(Seq::<EntryView>::empty(), e0) =~= st1);
    assert(assemble_spec(seq![e0]) == st1);
    assert(find_entry_from(st1, f, 0) == Some(0int));
    assert(last_after(seq![r1]) == a1);
    let st2 = seq![EntryView { name: f, passes: seq![r1, r2], pending: None }];
    assert(entry_step(st1[0], e1) =~= (EntryView { name: f, passes: seq![r1, r2], pending: None }));
    assert(st1.update(0, entry_step(st1[0], e1)) =~= st2);
    assert(assemble_spec(evs) == assemble_step(st1, e1));
    assert(assemble_step(st1, e1) == st1.update(0, entry_step(st1[0], e1)));
    assert(strip_pending(st2) =~= seq![FuncView { name: f, passes: seq![r1, r2] }]);
}

/// Law: interleaved dumps of two different functions do not cross-contaminate
/// each other's pipelines — with `f1`'s Before, then `f2`'s Before, then
/// `f1`'s After, then `f2`'s After, each function gets exactly its own
/// correctly paired record.
pub proof fn lemma_interleaving_isolated(
    s: Seq<char>,
    f1: Seq<char>,
    f2: Seq<char>,
    pa: Seq<char>,
    pb: Seq<char>,
    b1: Seq<char>,
    b2: Seq<char>,
    a1: Seq<char>,
    a2: Seq<char>,
)
    requires
        f1 != f2,
        scan_spec(s) == seq![
            EventView { dir: Direction::Before, pass: pa, func: f1, body: b1 },
            EventView { dir: Direction::Before, pass: pb, func: f2, body: b2 },
            EventView { dir: Direction::After, pass: pa, func: f1, body: a1 },
            EventView { dir: Direction::After, pass: pb, func: f2, body: a2 },
        ],
    ensures
        process_spec(s) == seq![
            FuncView { name: f1, passes: seq![PassView { name: pa, before: b1, after: a1 }] },
            FuncView { name: f2, passes: seq![PassView { name: pb, before: b2, after: a2 }] },
        ],
{
    let evs = scan_spec(s);
    let e0 = EventView { dir: Direction::Before, pass: pa, func: f1, body: b1 };
    let e1 = EventView { dir: Direction::Before, pass: pb, func: f2, body: b2 };
    let e2 = EventView { dir: Direction::After, pass: pa, func: f1, body: a1 };
    let e3 = EventView { dir: Direction::After, pass: pb, func: f2, body: a2 };
    assert(evs.drop_last() =~= seq![e0, e1, e2]);
    assert(seq![e0, e1, e2].drop_last() =~= seq![e0, e1]);
    assert(seq![e0, e1].drop_last() =~= seq![e0]);
    assert(seq![e0].drop_last() =~= Seq::<EventView>::empty());
    assert(assemble_spec(Seq::<EventView>::empty()) == Seq::<EntryView>::empty());

    let ea = EntryView { name: f1, passes: Seq::empty(), pending: Some((pa, b1)) };
    let eb = EntryView { name: f2, passes: Seq::empty(), pending: Some((pb, b2)) };
    let r1 = PassView { name: pa, before: b1, after: a1 };
    let r2 = PassView { name: pb, before: b2, after: a2 };
    let ea2 = EntryView { name: f1, passes: seq![r1], pending: None };
    let eb2 = EntryView { name: f2, passes: seq![r2], pending: None };

    let st1 = seq![ea];
    assert(assemble_step(Seq::<EntryView>::empty(), e0) =~= st1);
    assert(assemble_spec(seq![e0]) == st1);

    assert(find_entry_from(st1, f2, 1) is None);
    assert(find_entry_from(st1, f2, 0) is None);
    let st2 = seq![ea, eb];
    assert(st1.push(EntryView { name: f2, passes: Seq::empty(), pending: None }).update(
        1,
        entry_step(EntryView { name: f2, passes: Seq::empty(), pending: None }, e1),
    ) =~= st2);
    assert(assemble_spec(seq![e0, e1]) == assemble_step(st1, e1));
    assert(assemble_step(st1, e1) =~= st2);

    assert(find_entry_from(st2, f1, 0) == Some(0int));
    let st3 = seq![ea2, eb];
    assert(st2.update(0, entry_step(st2[0], e2)) =~= st3);
    assert(assemble_spec(seq![e0, e1, e2]) == assemble_step(st2, e2));
    assert(assemble_step(st2, e2) =~= st3);

    assert(find_entry_from(st3, f2, 1) == Some(1int));
    assert(find_entry_from(st3, f2, 0) == Some(1int));
    let st4 = seq![ea2, eb2];
    assert(st3.update(1, entry_step(st3[1], e3)) =~= st4);
    assert(assemble_spec(evs) == assemble_step(st3, e3));
    assert(assemble_step(st3, e3) =~= st4);

    assert(strip_pending(st4) =~= seq![
        FuncView { name: f1, passes: seq![r1] },
        FuncView { name: f2, passes: seq![r2] },
    ]);
}

/// The function names of an event sequence, each at its first occurrence, in
/// input order.
pub open spec fn first_seen(evs: Seq<EventView>) -> Seq<Seq<char>>
    decreases evs.len(),
{
    if evs.len() == 0 {
        Seq::empty()
    } else {
        let pre = first_seen(evs.drop_last());
        if pre.contains(evs.last().func) {
            pre
        } else {
            pre.push(evs.last().func)
        }
    }
}

/// The function names of a parse result, in result order.
pub open spec fn names_of(fs: Seq<FuncView>) -> Seq<Seq<char>> {
    fs.map_values(|f: FuncView| f.name)
}

spec fn entry_names(st: Seq<EntryView>) -> Seq<Seq<char>> {
    st.map_values(|e: EntryView| e.name)
}

/// What `find_entry_from` returns: the entry it names carries the name looked
/// for, and when it finds none, no entry from `i` on carries it.
proof fn lemma_find_entry_props(st: Seq<EntryView>, f: Seq<char>, i: int)
    ensures
        match find_entry_from(st, f, i) {
            Some(j) => i <= j < st.len() && st[j].name == f,
            None => i >= 0 ==> forall|k: int| i <= k < st.len() ==> st[k].name != f,
        },
    decreases st.len() - i,
{
    if i < 0 || i >= st.len() {
    } else if st[i].name == f {
    } else {
        lemma_find_entry_props(st, f, i + 1);
    }
}

proof fn lemma_assemble_names(evs: Seq<EventView>)
    ensures
        entry_names(assemble_spec(evs)) == first_seen(evs),
    decreases evs.len(),
{
    if evs.len() == 0 {
        assert(entry_names(assemble_spec(evs)) =~= first_seen(evs));
    } else {
        let pre = evs.drop_last();
        let ev = evs.last();
        lemma_assemble_names(pre);
        let st = assemble_spec(pre);
        lemma_find_entry_props(st, ev.func, 0);
        match find_entry_from(st, ev.func, 0) {
            Some(j) => {
                assert(entry_names(st)[j] == ev.func);
                assert(first_seen(pre).contains(ev.func));
                assert(entry_names(assemble_step(st, ev)) =~= entry_names(st));
            },
            None => {
                assert(!first_seen(pre).contains(ev.func)) by {
                    if first_seen(pre).contains(ev.func) {
                        let k = choose|k: int|
                            0 <= k < entry_names(st).len() && entry_names(st)[k] == ev.func;
                        assert(st[k].name == ev.func);
                    }
                }
                assert(entry_names(assemble_step(st, ev)) =~= entry_names(st).push(ev.func));
            },
        }
    }
}

/// Law: the function names of the result stand in first-occurrence order of
/// the raw text — the order in which the scanner met them — never a sorted
/// one.
pub proof fn lemma_function_order(s: Seq<char>)
    ensures
        names_of(process_spec(s)) == first_seen(scan_spec(s)),
{
    lemma_assemble_names(scan_spec(s));
    assert(names_of(strip_pending(assemble_spec(scan_spec(s)))) =~= entry_names(
        assemble_spec(scan_spec(s)),
    ));
}

proof fn lemma_assemble_unique(evs: Seq<EventView>)
    ensures
        forall|i: int, j: int|
            0 <= i < j < assemble_spec(evs).len() ==> assemble_spec(evs)[i].name != assemble_spec(
                evs,
            )[j].name,
    decreases evs.len(),
{
    if evs.len() == 0 {
    } else {
        let pre = evs.drop_last();
        let ev = evs.last();
        lemma_assemble_unique(pre);
        let st = assemble_spec(pre);
        lemma_find_entry_props(st, ev.func, 0);
        let stepped = assemble_step(st, ev);
        match find_entry_from(st, ev.func, 0) {
            Some(j) => {
                assert(forall|k: int|
                    0 <= k < stepped.len() ==> stepped[k].name == st[k].name);
            },
            None => {
                assert(forall|k: int| 0 <= k < st.len() ==> stepped[k].name == st[k].name);
                assert(stepped[st.len() as int].name == ev.func);
            },
        }
    }
}

/// Law: each function name appears exactly once in the result — every mention
/// of a function after its first updates that one pipeline in place, it never
/// opens a second entry.
pub proof fn lemma_names_unique(s: Seq<char>)
    ensures
        forall|i: int, j: int|
            0 <= i < j < process_spec(s).len() ==> process_spec(s)[i].name != process_spec(
                s,
            )[j].name,
{
    lemma_assemble_unique(scan_spec(s));
    let st = assemble_spec(scan_spec(s));
    assert(forall|i: int| 0 <= i < st.len() ==> process_spec(s)[i].name == st[i].name);
}

/// Law: the parse is a function of the input text alone, so two runs of
/// `process` on identical input yield structurally equal results: each run's
/// view equals `process_spec` of the input.
pub proof fn lemma_process_idempotent(s: Seq<char>, first: Seq<FuncView>, second: Seq<FuncView>)
    requires
        first == process_spec(s),
        second == process_spec(s),
    ensures
        first == second,
{
}

} // verus!
