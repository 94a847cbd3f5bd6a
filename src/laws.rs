use vstd::prelude::*;
use crate::errors::{
    collected, list_found, outcome, prefixed, report_violations, ErrorView, FieldReport,
    StepView, Validate, ValidationErrors, ViolationView,
};
use crate::register::{DatabaseContext, RegisterUserRequest};
use crate::requests::{variant_violations, Product};

verus! {

/// Some violation of `vs` is led by element index `i`.
pub open spec fn index_group(vs: Seq<ViolationView>, i: int) -> bool {
    exists|j: int|
        0 <= j < vs.len() && (#[trigger] vs[j]).path.len() > 0 && vs[j].path[0] == StepView::Index(
            i as nat,
        )
}

/// Some violation of `vs` lies under field `key` and, within it, element index `i`.
pub open spec fn item_group(vs: Seq<ViolationView>, key: Seq<char>, i: int) -> bool {
    exists|j: int|
        0 <= j < vs.len() && (#[trigger] vs[j]).path.len() > 1 && vs[j].path[0] == StepView::Field(
            key,
        ) && vs[j].path[1] == StepView::Index(i as nat)
}

/// When no rule of a record finds anything, the collected violation set is empty.
pub proof fn lemma_quiet_reports_collect_nothing(rs: Seq<FieldReport>)
    requires
        forall|i: int| 0 <= i < rs.len() ==> (#[trigger] rs[i]).found.len() == 0,
    ensures
        collected(rs).len() == 0,
    decreases rs.len(),
{
    if rs.len() > 0 {
        lemma_quiet_reports_collect_nothing(rs.drop_last());
        assert(rs.last().found.len() == 0);
    }
}

/// A rule that finds something leaves a violation whose path starts at its field's key.
pub proof fn lemma_finding_is_keyed(rs: Seq<FieldReport>, i: int)
    requires
        0 <= i < rs.len(),
        rs[i].found.len() > 0,
    ensures
        exists|j: int|
            0 <= j < collected(rs).len() && (#[trigger] collected(rs)[j]).path.len() > 0
                && collected(rs)[j].path[0] == StepView::Field(rs[i].key),
    decreases rs.len(),
{
    let head = collected(rs.drop_last());
    let tail = report_violations(rs.last());
    assert(collected(rs) == head + tail);
    if i == rs.len() - 1 {
        let j = head.len() as int;
        assert(collected(rs)[j] == tail[0]);
        assert(tail[0].path == seq![StepView::Field(rs[i].key)] + rs.last().found[0].path);
        assert(collected(rs)[j].path[0] == StepView::Field(rs[i].key));
    } else {
        assert(rs.drop_last()[i] == rs[i]);
        lemma_finding_is_keyed(rs.drop_last(), i);
        let j = choose|j: int|
            0 <= j < head.len() && (#[trigger] head[j]).path.len() > 0 && head[j].path[0]
                == StepView::Field(rs[i].key);
        assert(collected(rs)[j] == head[j]);
    }
}

/// A record on which every rule passes validates successfully.
pub proof fn law_valid_record_passes<T: Validate>(x: &T, r: Result<(), ValidationErrors>)
    requires
        outcome(r, collected(x.reports())),
        forall|i: int| 0 <= i < x.reports().len() ==> (#[trigger] x.reports()[i]).found.len() == 0,
    ensures
        r is Ok,
{
    lemma_quiet_reports_collect_nothing(x.reports());
}

/// A record with a field that breaks one of its rules fails, with a violation under that
/// field's key.
pub proof fn law_invalid_field_is_reported<T: Validate>(
    x: &T,
    r: Result<(), ValidationErrors>,
    i: int,
)
    requires
        outcome(r, collected(x.reports())),
        0 <= i < x.reports().len(),
        x.reports()[i].found.len() > 0,
    ensures
        r is Err,
        exists|j: int|
            0 <= j < r->Err_0@.len() && (#[trigger] r->Err_0@[j]).path.len() > 0
                && r->Err_0@[j].path[0] == StepView::Field(x.reports()[i].key),
{
    lemma_finding_is_keyed(x.reports(), i);
}

/// Two validations of the same unchanged record give the same result.
pub proof fn law_validate_repeatable<T: Validate>(
    x: &T,
    r1: Result<(), ValidationErrors>,
    r2: Result<(), ValidationErrors>,
)
    requires
        outcome(r1, collected(x.reports())),
        outcome(r2, collected(x.reports())),
    ensures
        r1 is Ok <==> r2 is Ok,
        r1 is Err ==> r1->Err_0@ == r2->Err_0@,
{
}

/// Two validations of the same registration under the same context give the same result.
pub proof fn law_validate_with_args_repeatable(
    x: RegisterUserRequest,
    context: DatabaseContext,
    r1: Result<(), ValidationErrors>,
    r2: Result<(), ValidationErrors>,
)
    requires
        outcome(r1, collected(x.reports_with(context))),
        outcome(r2, collected(x.reports_with(context))),
    ensures
        r1 is Ok <==> r2 is Ok,
        r1 is Err ==> r1->Err_0@ == r2->Err_0@,
{
}

/// In the findings of a collection whose elements all fail, each element index leads at
/// least one violation, and every violation is led by the index of an element.
pub proof fn law_failing_items_grouped_by_index(kids: Seq<Seq<ViolationView>>)
    requires
        forall|i: int| 0 <= i < kids.len() ==> (#[trigger] kids[i]).len() > 0,
    ensures
        forall|i: int| 0 <= i < kids.len() ==> #[trigger] index_group(list_found(kids), i),
        forall|j: int|
            0 <= j < list_found(kids).len() ==> (#[trigger] list_found(kids)[j]).path.len() > 0
                && list_found(kids)[j].path[0] is Index && list_found(kids)[j].path[0]->Index_0
                < kids.len(),
    decreases kids.len(),
{
    if kids.len() > 0 {
        let n = kids.len() - 1;
        let front = kids.drop_last();
        law_failing_items_grouped_by_index(front);
        let head = list_found(front);
        let tail = prefixed(seq![StepView::Index(n as nat)], kids.last());
        let all = list_found(kids);
        assert(all == head + tail);
        assert forall|i: int| 0 <= i < kids.len() implies #[trigger] index_group(all, i) by {
            if i == n {
                let j = head.len() as int;
                assert(all[j] == tail[0]);
                assert(tail[0].path == seq![StepView::Index(n as nat)] + kids.last()[0].path);
                assert(all[j].path[0] == StepView::Index(n as nat));
                assert(index_group(all, i));
            } else {
                assert(front[i] == kids[i]);
                assert(index_group(head, i));
                let j = choose|j: int|
                    0 <= j < head.len() && (#[trigger] head[j]).path.len() > 0 && head[j].path[0]
                        == StepView::Index(i as nat);
                assert(all[j] == head[j]);
                assert(index_group(all, i));
            }
        }
        assert forall|j: int| 0 <= j < all.len() implies (#[trigger] all[j]).path.len() > 0
            && all[j].path[0] is Index && all[j].path[0]->Index_0 < kids.len() by {
            if j < head.len() {
                assert(all[j] == head[j]);
            } else {
                let k = j - head.len();
                assert(all[j] == tail[k]);
                assert(tail[k].path == seq![StepView::Index(n as nat)] + kids.last()[k].path);
                assert(all[j].path[0] == StepView::Index(n as nat));
            }
        }
    }
}

/// A product whose variants are each invalid fails, with, for every variant index, a
/// violation under `variants` and that index; the collection's findings are all led by the
/// index of a variant.
pub proof fn law_invalid_variants_grouped(p: Product, r: Result<(), ValidationErrors>)
    requires
        outcome(r, collected(p.reports())),
        p.variants@.len() > 0,
        forall|i: int|
            0 <= i < p.variants@.len() ==> collected((#[trigger] p.variants@[i]).reports()).len()
                > 0,
    ensures
        r is Err,
        forall|i: int|
            0 <= i < p.variants@.len() ==> #[trigger] item_group(r->Err_0@, "variants"@, i),
        p.reports()[2].key == "variants"@,
        forall|j: int|
            0 <= j < p.reports()[2].found.len() ==> (#[trigger] p.reports()[2].found[j]).path.len()
                > 0 && p.reports()[2].found[j].path[0] is Index && p.reports()[2].found[j].path[0]->Index_0
                < p.variants@.len(),
{
    let kids = variant_violations(p.variants@);
    let rs = p.reports();
    assert forall|i: int| 0 <= i < kids.len() implies (#[trigger] kids[i]).len() > 0 by {
        assert(kids[i] == collected(p.variants@[i].reports()));
    }
    law_failing_items_grouped_by_index(kids);
    let found = list_found(kids);
    assert(rs[2].found == found);
    let all = collected(rs);
    let upto2 = collected(rs.take(2));
    let nested = report_violations(rs[2]);
    assert(rs.drop_last() =~= rs.take(3));
    assert(rs.take(3).drop_last() =~= rs.take(2));
    assert(rs.take(3).last() == rs[2]);
    assert(collected(rs.take(3)) == upto2 + nested);
    assert(all == upto2 + nested + report_violations(rs[3]));
    assert forall|i: int| 0 <= i < p.variants@.len() implies #[trigger] item_group(
        all,
        "variants"@,
        i,
    ) by {
        assert(index_group(found, i));
        let k = choose|k: int|
            0 <= k < found.len() && (#[trigger] found[k]).path.len() > 0 && found[k].path[0]
                == StepView::Index(i as nat);
        let j = upto2.len() + k;
        assert(all[j] == nested[k]);
        assert(nested[k].path == seq![StepView::Field("variants"@)] + found[k].path);
        assert(all[j].path[1] == found[k].path[0]);
        assert(item_group(all, "variants"@, i));
    }
    assert(found.len() > 0) by {
        assert(kids.len() > 0);
    }
}

/// The capacity rule alone tells two contexts apart: with room left the registration gets
/// exactly the violations it gets with a full database, less the capacity violation under
/// `username`, which a full database always adds.
pub proof fn law_capacity_depends_on_context(
    x: RegisterUserRequest,
    room: DatabaseContext,
    full: DatabaseContext,
    r1: Result<(), ValidationErrors>,
    r2: Result<(), ValidationErrors>,
)
    requires
        room.total < room.max_data,
        full.total >= full.max_data,
        outcome(r1, collected(x.reports_with(room))),
        outcome(r2, collected(x.reports_with(full))),
    ensures
        r2 is Err,
        collected(x.reports_with(full)) == collected(x.reports_with(room)).push(
            ViolationView {
                path: seq![StepView::Field("username"@)],
                error: ErrorView {
                    code: "can_register"@,
                    message: Some(
                        "cannot register user "@ + x.username@ + ", database is full"@,
                    ),
                },
            },
        ),
        r1 is Err ==> r1->Err_0@ != r2->Err_0@,
{
    let a = x.reports_with(room);
    let b = x.reports_with(full);
    assert(a.drop_last() =~= b.drop_last());
    let v = ViolationView {
        path: seq![StepView::Field("username"@)],
        error: ErrorView {
            code: "can_register"@,
            message: Some("cannot register user "@ + x.username@ + ", database is full"@),
        },
    };
    assert(report_violations(a.last()) =~= Seq::<ViolationView>::empty());
    assert(report_violations(b.last())[0].path =~= seq![StepView::Field("username"@)]);
    assert(report_violations(b.last()) =~= seq![v]);
    assert(collected(a) =~= collected(a.drop_last()));
    assert(collected(b) =~= collected(b.drop_last()).push(v));
}

/// A registration whose password and confirmation differ always fails with the password
/// mismatch under `password`, whatever the other rules find.
pub proof fn law_password_mismatch_reported(
    x: RegisterUserRequest,
    context: DatabaseContext,
    r: Result<(), ValidationErrors>,
)
    requires
        x.password@ != x.confirm_password@,
        outcome(r, collected(x.reports_with(context))),
    ensures
        r is Err,
        exists|j: int|
            0 <= j < r->Err_0@.len() && #[trigger] r->Err_0@[j] == (ViolationView {
                path: seq![StepView::Field("password"@)],
                error: ErrorView {
                    code: "password_equals_confirm_password"@,
                    message: Some("password != confirm password"@),
                },
            }),
{
    let rs = x.reports_with(context);
    let v = ViolationView {
        path: seq![StepView::Field("password"@)],
        error: ErrorView {
            code: "password_equals_confirm_password"@,
            message: Some("password != confirm password"@),
        },
    };
    let upto5 = collected(rs.take(5));
    let mine = report_violations(rs[5]);
    assert(mine[0].path =~= seq![StepView::Field("password"@)]);
    assert(mine =~= seq![v]);
    assert(rs.drop_last() =~= rs.take(6));
    assert(rs.take(6).drop_last() =~= rs.take(5));
    assert(rs.take(6).last() == rs[5]);
    assert(collected(rs.take(6)) == upto5 + mine);
    let all = collected(rs);
    assert(all == upto5 + mine + report_violations(rs[6]));
    assert(all[upto5.len() as int] == v);
}

} // verus!
