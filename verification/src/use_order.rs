use vstd::prelude::*;

use crate::text::same;
use crate::utils::{
    span_lint_and_sugg, sugg_diagnostic, Applicability, Diagnostic, DiagnosticView, DocsLinks,
};

verus! {

/// What the lint reads of an item of the crate; `S` stands for a place in the source.
#[derive(PartialEq, Eq, Debug, Clone)]
pub enum Item<S> {
    /// A `use` item: the names of the segments of its path, and the place of the path.
    Use { segments: Vec<String>, span: S },
    /// Any other item.
    Other,
}

/// The import that an item records: the first segment of a `use` path, with
/// the place of the path.
pub open spec fn import_of<S>(item: Item<S>) -> Option<(Seq<char>, S)> {
    match item {
        Item::Use { segments, span } => if segments@.len() > 0 {
            Some((segments@[0]@, span))
        } else {
            None
        },
        Item::Other => None,
    }
}

/// The lint that checks the order of imports. It records the root of every
/// `use` path while the crate is walked, and reports them at the end.
#[derive(Debug, Clone)]
pub struct UseOrder<S> {
    imports: Vec<(String, S)>,
}

impl<S> View for UseOrder<S> {
    type V = Seq<(Seq<char>, S)>;

    closed spec fn view(&self) -> Seq<(Seq<char>, S)> {
        self.imports@.map_values(|e: (String, S)| (e.0@, e.1))
    }
}

impl<S> Default for UseOrder<S> {
    fn default() -> (r: Self)
        ensures
            r@ == Seq::<(Seq<char>, S)>::empty(),
    {
        let r = UseOrder { imports: Vec::new() };
        assert(r@ =~= Seq::<(Seq<char>, S)>::empty());
        r
    }
}

/// The message of the lint.
pub open spec fn use_order_report<S>(links: DocsLinks, name: Seq<char>, sp: S) -> DiagnosticView<S> {
    sugg_diagnostic(links, name, sp, "hello"@, "help"@, "sugg"@, Applicability::MachineApplicable)
}

/// The group of an import's root: the standard library (`std`, `core`,
/// `alloc`) first, then outside crates, then the crate itself (`crate`,
/// `self`, `super`). The lint asks for a consistent order of imports
/// without naming one; this grouping is the order it checks, and it is
/// this library's own choice. Order within a group is not checked.
pub open spec fn root_group(root: Seq<char>) -> int {
    if root == "std"@ || root == "core"@ || root == "alloc"@ {
        0
    } else if root == "crate"@ || root == "self"@ || root == "super"@ {
        2
    } else {
        1
    }
}

/// The latest group among the first `i` imports (`0` where there are none).
pub open spec fn latest_group<S>(imports: Seq<(Seq<char>, S)>, i: int) -> int
    decreases i,
{
    if i <= 0 {
        0
    } else {
        let g = latest_group(imports, i - 1);
        let h = root_group(imports[i - 1].0);
        if g < h {
            h
        } else {
            g
        }
    }
}

/// Import `i` stands out of order: it comes after an import of a later group.
pub open spec fn is_misplaced<S>(imports: Seq<(Seq<char>, S)>, i: int) -> bool {
    root_group(imports[i].0) < latest_group(imports, i)
}

/// The places of the misplaced imports among the first `n`, in order.
pub open spec fn misplaced_spans<S>(imports: Seq<(Seq<char>, S)>, n: int) -> Seq<S>
    decreases n,
{
    if n <= 0 {
        seq![]
    } else {
        let before = misplaced_spans(imports, n - 1);
        if is_misplaced(imports, n - 1) {
            before.push(imports[n - 1].1)
        } else {
            before
        }
    }
}

/// The places of all misplaced imports, in order.
pub open spec fn misplaced_imports<S>(imports: Seq<(Seq<char>, S)>) -> Seq<S> {
    misplaced_spans(imports, imports.len() as int)
}

proof fn lemma_misplaced_spans_grow<S>(imports: Seq<(Seq<char>, S)>, m: int, n: int)
    requires
        0 <= m <= n,
    ensures
        misplaced_spans(imports, m).len() <= misplaced_spans(imports, n).len(),
    decreases n - m,
{
    if m < n {
        lemma_misplaced_spans_grow(imports, m, n - 1);
    }
}

/// Law: with at most one import recorded, no import is out of order.
pub proof fn lemma_at_most_one_import_in_order<S>(imports: Seq<(Seq<char>, S)>)
    ensures
        imports.len() <= 1 ==> misplaced_imports(imports).len() == 0,
{
    if imports.len() == 1 {
        assert(latest_group(imports, 0) == 0);
        assert(!is_misplaced(imports, 0));
        assert(misplaced_spans(imports, 0).len() == 0);
    }
}

/// The group of an import's root, as `root_group` says.
fn group_of(root: &str) -> (g: u8)
    ensures
        g as int == root_group(root@),
{
    if same(root, "std") || same(root, "core") || same(root, "alloc") {
        0
    } else if same(root, "crate") || same(root, "self") || same(root, "super") {
        2
    } else {
        1
    }
}

/// Law: a `use` item whose path has at least one segment gives the import
/// (its first segment, the place of the path), however many segments follow;
/// a `use` item with an empty path and any other item give none.
pub proof fn lemma_every_use_path_is_recorded<S>(segments: Vec<String>, span: S)
    ensures
        segments@.len() >= 1 ==> import_of(Item::Use { segments, span }) == Some(
            (segments@[0]@, span),
        ),
        segments@.len() == 0 ==> import_of(Item::Use { segments, span }) is None,
        import_of(Item::<S>::Other) is None,
{
}

impl<S> UseOrder<S> {
    /// The imports recorded so far, in order.
    pub fn imports(&self) -> (r: &Vec<(String, S)>)
        ensures
            r@.map_values(|e: (String, S)| (e.0@, e.1)) == self@,
    {
        &self.imports
    }

    /// Looks at one item: a `use` item with a path records the path's first
    /// segment and place; any other item changes nothing. Says whether it recorded.
    pub fn check_item(&mut self, item: Item<S>) -> (recorded: bool)
        ensures
            recorded == (import_of(item) is Some),
            match item {
                Item::Use { segments, span } => if segments@.len() >= 1 {
                    recorded && final(self)@ == old(self)@.push((segments@[0]@, span))
                } else {
                    !recorded && final(self)@ == old(self)@
                },
                Item::Other => !recorded && final(self)@ == old(self)@,
            },
            final(self)@ == match import_of(item) {
                Some(e) => old(self)@.push(e),
                None => old(self)@,
            },
    {
        let ghost it = item;
        match item {
            Item::Use { segments, span } => {
                if segments.len() > 0 {
                    let root = segments[0].clone();
                    let ghost before = self@;
                    self.imports.push((root, span));
                    assert(self@ =~= before.push((segments@[0]@, span)));
                    true
                } else {
                    false
                }
            },
            Item::Other => false,
        }
    }

    /// Whether some recorded import stands out of order.
    pub fn has_misplaced(&self) -> (r: bool)
        ensures
            r == (misplaced_imports(self@).len() > 0),
    {
        let n = self.imports.len();
        let mut latest: u8 = 0;
        let mut found = false;
        for i in 0..n
            invariant
                n == self.imports@.len() == self@.len(),
                latest as int == latest_group(self@, i as int),
                found == (misplaced_spans(self@, i as int).len() > 0),
        {
            let g = group_of(self.imports[i].0.as_str());
            assert(self@[i as int].0 == self.imports@[i as int].0@);
            if g < latest {
                found = true;
            } else {
                latest = g;
            }
        }
        found
    }

    /// The places of the imports that stand out of order, in the order they
    /// were recorded.
    pub fn misplaced_places(&self) -> (r: Vec<S>)
        where S: Copy,
        ensures
            r@ == misplaced_imports(self@),
    {
        let mut out: Vec<S> = Vec::new();
        let n = self.imports.len();
        let mut latest: u8 = 0;
        for i in 0..n
            invariant
                n == self.imports@.len() == self@.len(),
                latest as int == latest_group(self@, i as int),
                out@ == misplaced_spans(self@, i as int),
        {
            let g = group_of(self.imports[i].0.as_str());
            assert(self@[i as int].0 == self.imports@[i as int].0@);
            assert(self@[i as int].1 == self.imports@[i as int].1);
            if g < latest {
                out.push(self.imports[i].1);
            } else {
                latest = g;
            }
        }
        out
    }

    /// At the end of the crate: one report for each import that stands out
    /// of order (after an import of a later group), in the order they were
    /// recorded, each at the place of its import. With fewer than two
    /// imports there is no order to break and nothing is reported.
    pub fn check_crate_post(&self, links: &DocsLinks, lint_name_lower: &str) -> (r: Vec<Diagnostic<S>>)
        where S: Copy,
        requires
            misplaced_imports(self@).len() > 0 ==> links.ready(),
        ensures
            r@.len() == misplaced_imports(self@).len(),
            forall|i: int|
                0 <= i < r@.len() ==> (#[trigger] r@[i])@ == use_order_report(
                    *links,
                    lint_name_lower@,
                    misplaced_imports(self@)[i],
                ),
            self@.len() <= 1 ==> r@.len() == 0,
    {
        let mut out: Vec<Diagnostic<S>> = Vec::new();
        let n = self.imports.len();
        let mut latest: u8 = 0;
        proof {
            lemma_at_most_one_import_in_order(self@);
        }
        for i in 0..n
            invariant
                n == self.imports@.len() == self@.len(),
                misplaced_imports(self@).len() > 0 ==> links.ready(),
                latest as int == latest_group(self@, i as int),
                out@.len() == misplaced_spans(self@, i as int).len(),
                forall|j: int|
                    0 <= j < out@.len() ==> (#[trigger] out@[j])@ == use_order_report(
                        *links,
                        lint_name_lower@,
                        misplaced_spans(self@, i as int)[j],
                    ),
        {
            let g = group_of(self.imports[i].0.as_str());
            assert(self@[i as int].0 == self.imports@[i as int].0@);
            assert(self@[i as int].1 == self.imports@[i as int].1);
            if g < latest {
                proof {
                    lemma_misplaced_spans_grow(self@, i + 1, n as int);
                }
                let sp = self.imports[i].1;
                let d = span_lint_and_sugg(
                    links,
                    lint_name_lower,
                    sp,
                    "hello",
                    "help",
                    "sugg".to_owned(),
                    Applicability::MachineApplicable,
                );
                out.push(d);
            } else {
                latest = g;
            }
        }
        out
    }
}

} // verus!
