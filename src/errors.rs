use vstd::prelude::*;

verus! {

/// One step of the path from a validated record down to the value a violation is about.
#[derive(Debug)]
pub enum PathStep {
    Field(String),
    Index(usize),
}

/// A path step as a mathematical value.
pub enum StepView {
    Field(Seq<char>),
    Index(nat),
}

impl View for PathStep {
    type V = StepView;

    open spec fn view(&self) -> StepView {
        match self {
            PathStep::Field(name) => StepView::Field(name@),
            PathStep::Index(i) => StepView::Index(*i as nat),
        }
    }
}

/// What a single rule reports when it fails: a machine-readable code and an optional message.
#[derive(Debug)]
pub struct ValidationError {
    pub code: String,
    pub message: Option<String>,
}

/// A rule's error as a mathematical value.
pub struct ErrorView {
    pub code: Seq<char>,
    pub message: Option<Seq<char>>,
}

pub open spec fn opt_view(m: Option<String>) -> Option<Seq<char>> {
    match m {
        Some(s) => Some(s@),
        None => None,
    }
}

pub open spec fn opt_str_view(m: Option<&str>) -> Option<Seq<char>> {
    match m {
        Some(s) => Some(s@),
        None => None,
    }
}

impl View for ValidationError {
    type V = ErrorView;

    open spec fn view(&self) -> ErrorView {
        ErrorView { code: self.code@, message: opt_view(self.message) }
    }
}

impl ValidationError {
    pub fn new(code: &str, message: Option<&str>) -> (r: ValidationError)
        ensures
            r@ == (ErrorView { code: code@, message: opt_str_view(message) }),
    {
        let message = match message {
            Some(m) => Some(m.to_owned()),
            None => None,
        };
        ValidationError { code: code.to_owned(), message }
    }
}

/// A recorded breach: where it happened and what the rule said.
#[derive(Debug)]
pub struct Violation {
    pub path: Vec<PathStep>,
    pub error: ValidationError,
}

/// A violation as a mathematical value: its full path and the rule's error.
pub struct ViolationView {
    pub path: Seq<StepView>,
    pub error: ErrorView,
}

pub open spec fn path_view(p: Seq<PathStep>) -> Seq<StepView> {
    p.map_values(|s: PathStep| s@)
}

impl View for Violation {
    type V = ViolationView;

    open spec fn view(&self) -> ViolationView {
        ViolationView { path: path_view(self.path@), error: self.error@ }
    }
}

pub open spec fn violations_view(v: Seq<Violation>) -> Seq<ViolationView> {
    v.map_values(|x: Violation| x@)
}

/// Puts `pre` in front of the path of every violation, keeping their order.
pub open spec fn prefixed(pre: Seq<StepView>, vs: Seq<ViolationView>) -> Seq<ViolationView> {
    vs.map_values(|v: ViolationView| ViolationView { path: pre + v.path, error: v.error })
}

/// Everything that the rules attached to one field reported, with paths relative to that field.
pub struct FieldReport {
    pub key: Seq<char>,
    pub found: Seq<ViolationView>,
}

/// The violation set of a record: each field's findings, in declaration order, under its key.
pub open spec fn collected(rs: Seq<FieldReport>) -> Seq<ViolationView>
    decreases rs.len(),
{
    if rs.len() == 0 {
        Seq::empty()
    } else {
        collected(rs.drop_last()) + report_violations(rs.last())
    }
}

/// The findings of one field with their paths led by the field's key.
pub open spec fn report_violations(r: FieldReport) -> Seq<ViolationView> {
    prefixed(seq![StepView::Field(r.key)], r.found)
}

pub proof fn lemma_collected_push(rs: Seq<FieldReport>, r: FieldReport)
    ensures
        collected(rs.push(r)) == collected(rs) + report_violations(r),
{
    assert(rs.push(r).drop_last() =~= rs);
}

/// Extends a running violation set by one field's findings.
pub proof fn lemma_collected_step(rs: Seq<FieldReport>, r: FieldReport, before: Seq<ViolationView>, after: Seq<ViolationView>)
    requires
        before == collected(rs),
        after == before + report_violations(r),
    ensures
        after == collected(rs.push(r)),
{
    lemma_collected_push(rs, r);
}

/// A field that found nothing adds nothing.
pub proof fn lemma_prefixed_empty(r: FieldReport)
    ensures
        r.found.len() == 0 ==> report_violations(r) == Seq::<ViolationView>::empty(),
{
    if r.found.len() == 0 {
        assert(report_violations(r) =~= Seq::<ViolationView>::empty());
    }
}

/// Prefixing twice is prefixing once by the joined steps.
pub proof fn lemma_prefixed_twice(a: Seq<StepView>, b: Seq<StepView>, vs: Seq<ViolationView>)
    ensures
        prefixed(a, prefixed(b, vs)) == prefixed(a + b, vs),
{
    assert forall|i: int| 0 <= i < vs.len() implies (a + (b + vs[i].path)) == ((a + b) + vs[i].path) by {
        assert((a + (b + vs[i].path)) =~= ((a + b) + vs[i].path));
    }
    assert(prefixed(a, prefixed(b, vs)) =~= prefixed(a + b, vs));
}

/// Prefixing distributes over concatenation.
pub proof fn lemma_prefixed_concat(a: Seq<StepView>, x: Seq<ViolationView>, y: Seq<ViolationView>)
    ensures
        prefixed(a, x + y) == prefixed(a, x) + prefixed(a, y),
{
    assert(prefixed(a, x + y) =~= prefixed(a, x) + prefixed(a, y));
}

/// The result of a validation call agrees with the expected violation set `vs`.
pub open spec fn outcome(r: Result<(), ValidationErrors>, vs: Seq<ViolationView>) -> bool {
    match r {
        Ok(()) => vs.len() == 0,
        Err(e) => e@ == vs && vs.len() > 0,
    }
}

/// The ordered collection of every violation found in one validation call.
#[derive(Debug)]
pub struct ValidationErrors {
    pub violations: Vec<Violation>,
}

impl View for ValidationErrors {
    type V = Seq<ViolationView>;

    open spec fn view(&self) -> Seq<ViolationView> {
        violations_view(self.violations@)
    }
}

impl ValidationErrors {
    pub fn new() -> (r: ValidationErrors)
        ensures
            r@ == Seq::<ViolationView>::empty(),
    {
        ValidationErrors { violations: Vec::new() }
    }

    pub fn is_empty(&self) -> (r: bool)
        ensures
            r == (self@.len() == 0),
    {
        self.violations.len() == 0
    }

    pub fn len(&self) -> (r: usize)
        ensures
            r == self@.len(),
    {
        self.violations.len()
    }

    /// Success when nothing was recorded, else every violation.
    pub fn into_result(self) -> (r: Result<(), ValidationErrors>)
        ensures
            outcome(r, self@),
    {
        if self.violations.len() == 0 {
            Ok(())
        } else {
            Err(self)
        }
    }

    /// Records `error` as a violation of the field `field` itself.
    pub fn add(&mut self, field: &str, error: ValidationError)
        ensures
            final(self)@ == old(self)@ + prefixed(
                seq![StepView::Field(field@)],
                seq![ViolationView { path: Seq::empty(), error: error@ }],
            ),
    {
        let mut path: Vec<PathStep> = Vec::new();
        path.push(PathStep::Field(field.to_owned()));
        self.violations.push(Violation { path, error });
        proof {
            let pre = seq![StepView::Field(field@)];
            assert(path_view(path@) =~= pre + Seq::<StepView>::empty());
            assert(final(self)@ =~= old(self)@ + prefixed(
                pre,
                seq![ViolationView { path: Seq::empty(), error: error@ }],
            ));
        }
    }

    /// Moves every violation of `child` in, in order, each path led by `field` and, if given,
    /// `index`.
    fn append_under(&mut self, field: &str, index: Option<usize>, child: ValidationErrors)
        ensures
            final(self)@ == old(self)@ + prefixed(step_prefix(field@, index), child@),
    {
        let ghost start = self@;
        let ghost orig = child@;
        let ghost pre = step_prefix(field@, index);
        let mut rest = child.violations;
        let n = rest.len();
        let mut k: usize = 0;
        while rest.len() > 0
            invariant
                violations_view(rest@) == orig.subrange(k as int, orig.len() as int),
                k + rest@.len() == orig.len(),
                n == orig.len(),
                pre == step_prefix(field@, index),
                self@ == start + prefixed(pre, orig.subrange(0, k as int)),
            decreases rest@.len(),
        {
            let ghost before = rest@;
            let v = rest.remove(0);
            let ghost vv = v@;
            let mut path = prefix_path(field, index);
            let mut tail = v.path;
            let ghost head = path@;
            let ghost old_tail = tail@;
            path.append(&mut tail);
            assert(path@ =~= head + old_tail);
            assert(path_view(path@) =~= path_view(head) + path_view(old_tail));
            assert(vv.path == path_view(old_tail));
            let ghost mid = self@;
            let ghost mid_vec = self.violations@;
            let nv = Violation { path, error: v.error };
            assert(nv@ == (ViolationView { path: pre + vv.path, error: vv.error }));
            self.violations.push(nv);
            assert(self.violations@ == mid_vec.push(nv));
            proof {
                assert(violations_view(before)[0] == orig[k as int]);
                assert(vv == orig[k as int]);
                assert(rest@ =~= before.subrange(1, before.len() as int));
                assert(violations_view(rest@) =~= violations_view(before).subrange(1, before.len() as int));
                assert(self@ =~= mid.push(ViolationView { path: pre + vv.path, error: vv.error }));
                assert(orig.subrange(0, k + 1) =~= orig.subrange(0, k as int).push(orig[k as int]));
                assert(prefixed(pre, orig.subrange(0, k + 1)) =~= prefixed(pre, orig.subrange(0, k as int)).push(
                    ViolationView { path: pre + vv.path, error: vv.error }));
                assert(self@ =~= start + prefixed(pre, orig.subrange(0, k + 1)));
            }
            k = k + 1;
        }
        assert(orig.subrange(0, k as int) =~= orig);
    }

    /// Merges the violations of an embedded record under `field`.
    pub fn add_nested(&mut self, field: &str, child: ValidationErrors)
        ensures
            final(self)@ == old(self)@ + prefixed(
                seq![StepView::Field(field@)],
                child@,
            ),
    {
        self.append_under(field, None, child);
    }

    /// Merges the violations of element `index` of the collection `field`.
    pub fn add_nested_item(&mut self, field: &str, index: usize, child: ValidationErrors)
        ensures
            final(self)@ == old(self)@ + prefixed(
                seq![StepView::Field(field@), StepView::Index(index as nat)],
                child@,
            ),
    {
        self.append_under(field, Some(index), child);
    }
}

fn prefix_path(field: &str, index: Option<usize>) -> (p: Vec<PathStep>)
    ensures
        path_view(p@) == step_prefix(field@, index),
{
    let mut p: Vec<PathStep> = Vec::new();
    p.push(PathStep::Field(field.to_owned()));
    match index {
        Some(i) => {
            p.push(PathStep::Index(i));
            assert(path_view(p@) =~= step_prefix(field@, index));
        },
        None => {
            assert(path_view(p@) =~= step_prefix(field@, index));
        },
    }
    p
}

/// The findings of a collection field: each element's violations, in element order, under
/// its index.
pub open spec fn list_found(kids: Seq<Seq<ViolationView>>) -> Seq<ViolationView>
    decreases kids.len(),
{
    if kids.len() == 0 {
        Seq::empty()
    } else {
        list_found(kids.drop_last()) + prefixed(
            seq![StepView::Index((kids.len() - 1) as nat)],
            kids.last(),
        )
    }
}

/// A record type whose rules are fixed: `reports` gives, in declaration order, what each
/// rule finds on a value, and `validate` returns exactly their collection.
pub trait Validate {
    spec fn reports(&self) -> Seq<FieldReport>;

    fn validate(&self) -> (r: Result<(), ValidationErrors>)
        ensures
            outcome(r, collected(self.reports())),
    ;
}

pub open spec fn step_prefix(field: Seq<char>, index: Option<usize>) -> Seq<StepView> {
    match index {
        Some(i) => seq![StepView::Field(field), StepView::Index(i as nat)],
        None => seq![StepView::Field(field)],
    }
}

} // verus!
