//! Data model of the parse result: pass records, per-function pipelines, and
//! the ordered set of pipelines for a whole dump.

use vstd::prelude::*;

verus! {

/// Mathematical model of one pass record: the pass name and the exact
/// "before" and "after" snapshot text, as character sequences.
#[verifier::ext_equal]
pub struct PassView {
    pub name: Seq<char>,
    pub before: Seq<char>,
    pub after: Seq<char>,
}

/// One optimization pass applied to one function: the pass name and the
/// complete IR text before and after the pass. The two texts are independent
/// snapshots, never diffs; byte-for-byte equality of `before` and `after`
/// signals a pass that changed nothing.
#[derive(Debug, Clone, PartialEq, Eq)]
pub struct Pass {
    pub name: String,
    pub before: String,
    pub after: String,
}

impl View for Pass {
    type V = PassView;

    open spec fn view(&self) -> PassView {
        PassView { name: self.name@, before: self.before@, after: self.after@ }
    }
}

impl Pass {
    /// True exactly when the pass left the IR unchanged, decided by exact
    /// character-for-character comparison of the two snapshots; a
    /// trailing-newline-only difference counts as a change.
    pub fn unchanged(&self) -> (r: bool)
        ensures
            r == (self@.before == self@.after),
    {
        self.before == self.after
    }

    /// Whether the presentation layer should show this pass: every pass is
    /// shown unless unchanged passes are being skipped and this one left the
    /// IR exactly as it was.
    pub fn should_display(&self, skip_unchanged: bool) -> (r: bool)
        ensures
            r == !(skip_unchanged && self@.before == self@.after),
    {
        !(skip_unchanged && self.unchanged())
    }
}

/// Mathematical model of one function's pipeline: the function name and its
/// pass records in execution order.
#[verifier::ext_equal]
pub struct FuncView {
    pub name: Seq<char>,
    pub passes: Seq<PassView>,
}

/// The models of a sequence of pass records.
pub open spec fn passes_view(s: Seq<Pass>) -> Seq<PassView> {
    s.map_values(|p: Pass| p@)
}

/// One function's pipeline: its name and the ordered sequence of passes that
/// ran on it, in the order their post-pass snapshots appeared in the input.
#[derive(Debug, Clone, PartialEq, Eq)]
pub struct FuncPipeline {
    pub name: String,
    pub passes: Vec<Pass>,
}

impl View for FuncPipeline {
    type V = FuncView;

    open spec fn view(&self) -> FuncView {
        FuncView { name: self.name@, passes: passes_view(self.passes@) }
    }
}

/// The models of a sequence of function pipelines.
pub open spec fn funcs_view(s: Seq<FuncPipeline>) -> Seq<FuncView> {
    s.map_values(|f: FuncPipeline| f@)
}

/// Position of the first pipeline named `f` at or after `i`, if any.
pub open spec fn find_func_from(st: Seq<FuncView>, f: Seq<char>, i: int) -> Option<int>
    decreases st.len() - i,
{
    if i < 0 || i >= st.len() {
        None
    } else if st[i].name == f {
        Some(i)
    } else {
        find_func_from(st, f, i + 1)
    }
}

/// What `find_func_from` returns: the pipeline it names carries the name
/// looked for, and when it finds none, no pipeline from `i` on carries it.
pub proof fn lemma_find_func_props(st: Seq<FuncView>, f: Seq<char>, i: int)
    ensures
        match find_func_from(st, f, i) {
            Some(j) => i <= j < st.len() && st[j].name == f,
            None => i >= 0 ==> forall|k: int| i <= k < st.len() ==> st[k].name != f,
        },
    decreases st.len() - i,
{
    if i < 0 || i >= st.len() {
    } else if st[i].name == f {
    } else {
        lemma_find_func_props(st, f, i + 1);
    }
}

/// The full parse result: every function of the dump mapped to its pipeline,
/// in first-occurrence order of the function names in the raw text.
#[derive(Debug, Clone, PartialEq, Eq)]
pub struct PipelineSet {
    pub entries: Vec<FuncPipeline>,
}

impl View for PipelineSet {
    type V = Seq<FuncView>;

    open spec fn view(&self) -> Seq<FuncView> {
        funcs_view(self.entries@)
    }
}

impl PipelineSet {
    /// How many functions the dump mentioned.
    pub fn len(&self) -> (r: usize)
        ensures
            r == self@.len(),
    {
        self.entries.len()
    }

    /// True when the dump mentioned no function at all.
    pub fn is_empty(&self) -> (r: bool)
        ensures
            r == (self@.len() == 0),
    {
        self.entries.is_empty()
    }

    /// The function names, in first-occurrence order — the order of the raw
    /// text, not a sorted one.
    pub fn function_names(&self) -> (r: Vec<String>)
        ensures
            r@.len() == self@.len(),
            forall|i: int| 0 <= i < r@.len() ==> r@[i]@ == self@[i].name,
    {
        let mut names: Vec<String> = Vec::new();
        let mut i: usize = 0;
        while i < self.entries.len()
            invariant
                i <= self.entries@.len(),
                names@.len() == i,
                forall|j: int| 0 <= j < i ==> names@[j]@ == self@[j].name,
            decreases self.entries@.len() - i,
        {
            names.push(self.entries[i].name.clone());
            i += 1;
        }
        names
    }

    /// The pipeline of the function of exactly this name, or `None` when the
    /// dump never mentioned it; the caller surfaces that as "no such
    /// function".
    pub fn pipeline_for(&self, name: &str) -> (r: Option<&Vec<Pass>>)
        ensures
            match find_func_from(self@, name@, 0) {
                Some(j) => r matches Some(ps) && passes_view(ps@) == self@[j].passes,
                None => r is None,
            },
    {
        let mut i: usize = 0;
        while i < self.entries.len()
            invariant
                i <= self.entries@.len(),
                find_func_from(self@, name@, 0) == find_func_from(self@, name@, i as int),
            decreases self.entries@.len() - i,
        {
            if crate::scanner::str_eq(self.entries[i].name.as_str(), name) {
                return Some(&self.entries[i].passes);
            }
            i += 1;
        }
        None
    }
}

} // verus!
