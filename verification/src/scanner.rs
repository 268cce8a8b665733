//! Marker scanner: walks the raw dump text line by line and yields the
//! sequence of recognized dump events, in file order.
//!
//! A marker is a whole line of the form
//! `*** IR Dump Before <pass> on <function> ***` or
//! `*** IR Dump After <pass> on <function> ***`; when the ` on <function>`
//! part is absent the dump applies to the whole module and is filed under a
//! sentinel bucket name. Every line that is not a marker is body text of the
//! most recently opened event, newlines preserved exactly; text before the
//! first marker is noise and is discarded. A malformed marker line (say, one
//! missing the closing sentinel) is by the same rule ordinary body text, so a
//! corrupt fragment degrades that block only, never the whole parse.

use vstd::prelude::*;

verus! {

/// Whether a dump snapshot was taken before or after the pass ran.
#[derive(Debug, Clone, Copy, PartialEq, Eq, Structural)]
pub enum Direction {
    Before,
    After,
}

/// Mathematical model of a parsed marker line: direction, pass name and
/// function name, as character sequences.
#[verifier::ext_equal]
pub struct MarkerView {
    pub dir: Direction,
    pub pass: Seq<char>,
    pub func: Seq<char>,
}

/// Mathematical model of one scanner event: a parsed marker together with the
/// body text captured up to the next marker or the end of the input.
#[verifier::ext_equal]
pub struct EventView {
    pub dir: Direction,
    pub pass: Seq<char>,
    pub func: Seq<char>,
    pub body: Seq<char>,
}

/// One recognized dump event: the snapshot direction, the pass it belongs to,
/// the function it applies to (or the module sentinel), and the raw text
/// captured until the next marker or the end of the input.
#[derive(Debug, Clone, PartialEq, Eq)]
pub struct Event {
    pub direction: Direction,
    pub pass_name: String,
    pub function_name: String,
    pub body: String,
}

impl View for Event {
    type V = EventView;

    open spec fn view(&self) -> EventView {
        EventView {
            dir: self.direction,
            pass: self.pass_name@,
            func: self.function_name@,
            body: self.body@,
        }
    }
}

/// The sentinel of a marker line announcing a pre-pass snapshot.
pub open spec fn before_prefix() -> Seq<char> {
    "*** IR Dump Before "@
}

/// The sentinel of a marker line announcing a post-pass snapshot.
pub open spec fn after_prefix() -> Seq<char> {
    "*** IR Dump After "@
}

/// The closing sentinel of a marker line.
pub open spec fn marker_suffix() -> Seq<char> {
    " ***"@
}

/// The bucket name used for dumps that name no function: distinct from any
/// real function name, which cannot start with `<`.
pub open spec fn module_sentinel() -> Seq<char> {
    "<module>"@
}

/// The separator between pass name and function name inside a marker line.
pub open spec fn is_on_at(s: Seq<char>, i: int) -> bool {
    &&& s[i] == ' '
    &&& s[i + 1] == 'o'
    &&& s[i + 2] == 'n'
    &&& s[i + 3] == ' '
}

/// Position of the first ` on ` separator at or after `i`, if any.
pub open spec fn find_on_from(s: Seq<char>, i: int) -> Option<int>
    decreases s.len() - i,
{
    if i < 0 || i + 4 > s.len() {
        None
    } else if is_on_at(s, i) {
        Some(i)
    } else {
        find_on_from(s, i + 1)
    }
}

/// Position of the first newline at or after `i`, if any.
pub open spec fn first_nl_from(s: Seq<char>, i: int) -> Option<int>
    decreases s.len() - i,
{
    if i < 0 || i >= s.len() {
        None
    } else if s[i] == '\n' {
        Some(i)
    } else {
        first_nl_from(s, i + 1)
    }
}

/// What `first_nl_from` returns: the first newline position, and nothing
/// earlier is a newline.
pub proof fn lemma_first_nl(s: Seq<char>, i: int)
    ensures
        match first_nl_from(s, i) {
            Some(j) => i <= j < s.len() && s[j] == '\n' && (forall|k: int|
                i <= k < j ==> s[k] != '\n'),
            None => i >= 0 ==> forall|k: int| i <= k < s.len() ==> s[k] != '\n',
        },
    decreases s.len() - i,
{
    if i < 0 || i >= s.len() {
    } else if s[i] == '\n' {
    } else {
        lemma_first_nl(s, i + 1);
    }
}

/// A line matches the marker shape with prefix `p`: long enough, starts with
/// `p`, ends with the closing sentinel.
pub open spec fn is_marker_with(l: Seq<char>, p: Seq<char>) -> bool {
    &&& l.len() >= p.len() + marker_suffix().len()
    &&& l.subrange(0, p.len() as int) == p
    &&& l.subrange(l.len() - marker_suffix().len(), l.len() as int) == marker_suffix()
}

/// The marker parsed from a line matching the shape with prefix `p`: the text
/// between prefix and suffix is split at the first ` on ` into pass name and
/// function name; with no ` on ` the whole of it is the pass name and the
/// event is filed under the module sentinel.
pub open spec fn marker_with(l: Seq<char>, p: Seq<char>, dir: Direction) -> MarkerView {
    let mid = l.subrange(p.len() as int, l.len() - marker_suffix().len());
    match find_on_from(mid, 0) {
        Some(k) => MarkerView {
            dir,
            pass: mid.subrange(0, k),
            func: mid.subrange(k + 4, mid.len() as int),
        },
        None => MarkerView { dir, pass: mid, func: module_sentinel() },
    }
}

/// The marker a line content denotes, if any; any line that does not match
/// the marker shape exactly is body text.
pub open spec fn marker_spec(l: Seq<char>) -> Option<MarkerView> {
    if is_marker_with(l, before_prefix()) {
        Some(marker_with(l, before_prefix(), Direction::Before))
    } else if is_marker_with(l, after_prefix()) {
        Some(marker_with(l, after_prefix(), Direction::After))
    } else {
        None
    }
}

/// The events of the text from position `i` on, with `cur` the event opened
/// by the last marker seen, its body as accumulated so far. Each step takes
/// one line: a marker line flushes `cur` and opens a new event; any other
/// line, terminator included, extends the body of `cur` (or is discarded as
/// noise when no marker was seen yet); the end of the input flushes `cur`.
pub open spec fn scan_acc(s: Seq<char>, i: int, cur: Option<EventView>) -> Seq<EventView>
    decreases s.len() - i,
    via scan_acc_decreases
{
    if i < 0 || i >= s.len() {
        match cur {
            Some(e) => seq![e],
            None => Seq::empty(),
        }
    } else {
        let ce = match first_nl_from(s, i) {
            Some(j) => j,
            None => s.len() as int,
        };
        let se = if ce < s.len() {
            ce + 1
        } else {
            s.len() as int
        };
        match marker_spec(s.subrange(i, ce)) {
            Some(mk) => {
                let opened = scan_acc(
                    s,
                    se,
                    Some(EventView { dir: mk.dir, pass: mk.pass, func: mk.func, body: Seq::empty() }),
                );
                match cur {
                    Some(e) => seq![e] + opened,
                    None => opened,
                }
            },
            None => scan_acc(
                s,
                se,
                match cur {
                    Some(e) => Some(
                        EventView {
                            dir: e.dir,
                            pass: e.pass,
                            func: e.func,
                            body: e.body + s.subrange(i, se),
                        },
                    ),
                    None => None,
                },
            ),
        }
    }
}

#[via_fn]
proof fn scan_acc_decreases(s: Seq<char>, i: int, cur: Option<EventView>) {
    lemma_first_nl(s, i);
}

/// The event sequence of the whole text.
pub open spec fn scan_spec(s: Seq<char>) -> Seq<EventView> {
    scan_acc(s, 0, None)
}

/// The models of a sequence of exec events.
pub open spec fn events_view(s: Seq<Event>) -> Seq<EventView> {
    s.map_values(|e: Event| e@)
}

/// The model of the scanner's open slot.
pub open spec fn opt_event_view(c: Option<Event>) -> Option<EventView> {
    match c {
        Some(e) => Some(e@),
        None => None,
    }
}

proof fn lemma_events_view_push(s: Seq<Event>, e: Event)
    ensures
        events_view(s.push(e)) == events_view(s).push(e@),
{
    assert(events_view(s.push(e)) =~= events_view(s).push(e@));
}

/// Whether `s` carries exactly `p` at position `off`.
fn match_at(s: &str, off: usize, p: &str) -> (r: bool)
    requires
        off <= s@.len(),
    ensures
        r == (off + p@.len() <= s@.len() && s@.subrange(off as int, off + p@.len()) == p@),
{
    let n = s.unicode_len();
    let pl = p.unicode_len();
    if pl > n - off {
        return false;
    }
    let mut j: usize = 0;
    while j < pl
        invariant
            off + pl <= n,
            n == s@.len(),
            pl == p@.len(),
            j <= pl,
            forall|k: int| 0 <= k < j ==> s@[off + k] == p@[k],
        decreases pl - j,
    {
        if s.get_char(off + j) != p.get_char(j) {
            assert(s@.subrange(off as int, off + p@.len()) != p@) by {
                if s@.subrange(off as int, off + p@.len()) == p@ {
                    assert(s@.subrange(off as int, off + p@.len())[j as int] == p@[j as int]);
                }
            }
            return false;
        }
        j += 1;
    }
    assert(s@.subrange(off as int, off + p@.len()) =~= p@);
    true
}

/// Whether two string slices hold exactly the same characters.
pub(crate) fn str_eq(a: &str, b: &str) -> (r: bool)
    ensures
        r == (a@ == b@),
{
    let al = a.unicode_len();
    let bl = b.unicode_len();
    if al != bl {
        return false;
    }
    let r = match_at(a, 0, b);
    proof {
        assert(a@.subrange(0, a@.len() as int) =~= a@);
    }
    r
}

/// Position of the first newline at or after `start`, if any.
fn find_newline(s: &str, start: usize) -> (r: Option<usize>)
    requires
        start <= s@.len(),
    ensures
        match r {
            Some(j) => start <= j < s@.len() && first_nl_from(s@, start as int) == Some(j as int),
            None => first_nl_from(s@, start as int) is None,
        },
{
    let n = s.unicode_len();
    let mut i: usize = start;
    while i < n
        invariant
            start <= i <= n,
            n == s@.len(),
            first_nl_from(s@, start as int) == first_nl_from(s@, i as int),
        decreases n - i,
    {
        if s.get_char(i) == '\n' {
            return Some(i);
        }
        i += 1;
    }
    None
}

/// Position of the first ` on ` separator in `m`, if any.
fn find_on(m: &str) -> (r: Option<usize>)
    ensures
        match r {
            Some(k) => k + 4 <= m@.len() && find_on_from(m@, 0) == Some(k as int),
            None => find_on_from(m@, 0) is None,
        },
{
    let n = m.unicode_len();
    if n < 4 {
        return None;
    }
    let mut i: usize = 0;
    while i <= n - 4
        invariant
            n == m@.len(),
            4 <= n,
            i <= n - 3,
            find_on_from(m@, 0) == find_on_from(m@, i as int),
        decreases n - i,
    {
        if s_on_at(m, i) {
            return Some(i);
        }
        i += 1;
    }
    None
}

/// Whether the ` on ` separator stands at position `i` of `m`.
fn s_on_at(m: &str, i: usize) -> (r: bool)
    requires
        i + 4 <= m@.len(),
        m@.len() <= usize::MAX,
    ensures
        r == is_on_at(m@, i as int),
{
    m.get_char(i) == ' ' && m.get_char(i + 1) == 'o' && m.get_char(i + 2) == 'n' && m.get_char(
        i + 3,
    ) == ' '
}

/// Parses one line of content: the opened event (with empty body) of a marker
/// line, `None` for body text.
fn parse_marker(line: &str) -> (r: Option<Event>)
    ensures
        match r {
            Some(ev) => marker_spec(line@) == Some(
                MarkerView { dir: ev.direction, pass: ev.pass_name@, func: ev.function_name@ },
            ) && ev.body@ == Seq::<char>::empty(),
            None => marker_spec(line@) is None,
        },
{
    let n = line.unicode_len();
    let suffix = " ***";
    let sl = suffix.unicode_len();
    let before_p = "*** IR Dump Before ";
    let bl = before_p.unicode_len();
    let after_p = "*** IR Dump After ";
    let al = after_p.unicode_len();

    let header: Option<(Direction, usize)> = if bl <= n && sl <= n - bl && match_at(line, 0, before_p)
        && match_at(line, n - sl, suffix) {
        Some((Direction::Before, bl))
    } else if al <= n && sl <= n - al && match_at(line, 0, after_p) && match_at(
        line,
        n - sl,
        suffix,
    ) {
        Some((Direction::After, al))
    } else {
        None
    };
    match header {
        None => None,
        Some((dir, plen)) => {
            let mid = line.substring_char(plen, n - sl);
            let ml = mid.unicode_len();
            let (pass, func): (String, String) = match find_on(mid) {
                Some(k) => (
                    mid.substring_char(0, k).to_owned(),
                    mid.substring_char(k + 4, ml).to_owned(),
                ),
                None => (mid.to_owned(), "<module>".to_owned()),
            };
            Some(Event { direction: dir, pass_name: pass, function_name: func, body: String::new() })
        },
    }
}

/// Scans the whole input and returns its dump events in file order. Memory
/// aside, the scan is one forward walk of the text: one open event at a time,
/// each body a contiguous region of the input.
pub fn scan(input: &str) -> (events: Vec<Event>)
    ensures
        events_view(events@) == scan_spec(input@),
{
    let n = input.unicode_len();
    let mut events: Vec<Event> = Vec::new();
    let mut cur: Option<Event> = None;
    let mut pos: usize = 0;
    proof {
        assert(events_view(events@) =~= Seq::<EventView>::empty());
        assert(events_view(events@) + scan_acc(input@, 0, None) =~= scan_acc(input@, 0, None));
    }
    while pos < n
        invariant
            n == input@.len(),
            pos <= n,
            scan_spec(input@) == events_view(events@) + scan_acc(
                input@,
                pos as int,
                opt_event_view(cur),
            ),
        decreases n - pos,
    {
        let (ce, se): (usize, usize) = match find_newline(input, pos) {
            Some(j) => (j, j + 1),
            None => (n, n),
        };
        let line = input.substring_char(pos, ce);
        let ghost old_events = events@;
        let ghost old_cur = opt_event_view(cur);
        match parse_marker(line) {
            Some(ev) => {
                let ghost opened = scan_acc(input@, se as int, Some(ev@));
                assert(scan_acc(input@, pos as int, old_cur) == match old_cur {
                    Some(e) => seq![e] + opened,
                    None => opened,
                });
                match cur {
                    Some(e) => {
                        proof {
                            lemma_events_view_push(old_events, e);
                        }
                        events.push(e);
                        proof {
                            assert(events_view(events@) + opened =~= events_view(old_events) + (
                            seq![e@] + opened));
                        }
                    },
                    None => {},
                }
                cur = Some(ev);
            },
            None => {
                let seg = input.substring_char(pos, se);
                cur = match cur {
                    Some(e) => {
                        let mut e2 = e;
                        e2.body.append(seg);
                        Some(e2)
                    },
                    None => None,
                };
                assert(scan_acc(input@, pos as int, old_cur) == scan_acc(
                    input@,
                    se as int,
                    opt_event_view(cur),
                ));
            },
        }
        pos = se;
    }
    match cur {
        Some(e) => {
            proof {
                lemma_events_view_push(events@, e);
                assert(events_view(events@).push(e@) =~= events_view(events@) + seq![e@]);
            }
            events.push(e);
        },
        None => {
            proof {
                assert(events_view(events@) + Seq::<EventView>::empty() =~= events_view(events@));
            }
        },
    }
    events
}

} // verus!
