use vstd::prelude::*;
use crate::errors::{
    collected, lemma_collected_step, lemma_prefixed_concat, lemma_prefixed_twice, list_found,
    prefixed, ErrorView, FieldReport, StepView, Validate, ValidationErrors, ViolationView,
};
use crate::rules::{
    check_count, check_length, check_range, check_rule, count_report, length_report,
    not_blank, not_blank_result, range_report, rule_report,
};

verus! {

/// The error of a length rule declared without its own code or message.
pub open spec fn length_error() -> ErrorView {
    ErrorView { code: "length"@, message: None }
}

/// The error of a range rule declared without its own code.
pub open spec fn range_error() -> ErrorView {
    ErrorView { code: "range"@, message: None }
}

/// A category submission: both fields must hold some non-whitespace text.
#[derive(Debug)]
pub struct CreateCategoryRequest {
    pub id: String,
    pub name: String,
}

impl Validate for CreateCategoryRequest {
    open spec fn reports(&self) -> Seq<FieldReport> {
        seq![
            rule_report("id"@, not_blank_result(self.id@), None),
            rule_report("name"@, not_blank_result(self.name@), None),
        ]
    }

    fn validate(&self) -> (r: Result<(), ValidationErrors>) {
        let ghost rs = self.reports();
        let mut errors = ValidationErrors::new();
        assert(errors@ =~= collected(rs.take(0)));
        let ghost e0 = errors@;
        check_rule(&mut errors, "id", not_blank(self.id.as_str()), None);
        proof {
            lemma_collected_step(rs.take(0), rs[0], e0, errors@);
            assert(rs.take(0).push(rs[0]) =~= rs.take(1));
        }
        let ghost e1 = errors@;
        check_rule(&mut errors, "name", not_blank(self.name.as_str()), None);
        proof {
            lemma_collected_step(rs.take(1), rs[1], e1, errors@);
            assert(rs.take(1).push(rs[1]) =~= rs);
        }
        errors.into_result()
    }
}


/// A sign-in submission: both fields between 3 and 20 characters.
#[derive(Debug)]
pub struct LoginRequest {
    pub username: String,
    pub password: String,
}

impl Validate for LoginRequest {
    open spec fn reports(&self) -> Seq<FieldReport> {
        seq![
            length_report(
                "username"@,
                self.username@,
                3,
                20,
                ErrorView {
                    code: "length"@,
                    message: Some("username length must be between 3 and 20"@),
                },
            ),
            length_report(
                "password"@,
                self.password@,
                3,
                20,
                ErrorView {
                    code: "length"@,
                    message: Some("password length must be between 3 and 20"@),
                },
            ),
        ]
    }

    fn validate(&self) -> (r: Result<(), ValidationErrors>) {
        let ghost rs = self.reports();
        let mut errors = ValidationErrors::new();
        assert(errors@ =~= collected(rs.take(0)));
        let ghost e0 = errors@;
        check_length(
            &mut errors,
            "username",
            self.username.as_str(),
            3,
            20,
            "length",
            Some("username length must be between 3 and 20"),
        );
        proof {
            lemma_collected_step(rs.take(0), rs[0], e0, errors@);
            assert(rs.take(0).push(rs[0]) =~= rs.take(1));
        }
        let ghost e1 = errors@;
        check_length(
            &mut errors,
            "password",
            self.password.as_str(),
            3,
            20,
            "length",
            Some("password length must be between 3 and 20"),
        );
        proof {
            lemma_collected_step(rs.take(1), rs[1], e1, errors@);
            assert(rs.take(1).push(rs[1]) =~= rs);
        }
        errors.into_result()
    }
}

/// One variant of a product: a name of 3 to 100 characters and a price from 12 to 100000000.
#[derive(Debug)]
pub struct ProductVariant {
    pub name: String,
    pub price: i32,
}

impl Validate for ProductVariant {
    open spec fn reports(&self) -> Seq<FieldReport> {
        seq![
            length_report("name"@, self.name@, 3, 100, length_error()),
            range_report("price"@, self.price as int, 12, 100000000, range_error()),
        ]
    }

    fn validate(&self) -> (r: Result<(), ValidationErrors>) {
        let ghost rs = self.reports();
        let mut errors = ValidationErrors::new();
        assert(errors@ =~= collected(rs.take(0)));
        let ghost e0 = errors@;
        check_length(&mut errors, "name", self.name.as_str(), 3, 100, "length", None);
        proof {
            lemma_collected_step(rs.take(0), rs[0], e0, errors@);
            assert(rs.take(0).push(rs[0]) =~= rs.take(1));
        }
        let ghost e1 = errors@;
        check_range(&mut errors, "price", self.price as i64, 12, 100000000, "range");
        proof {
            lemma_collected_step(rs.take(1), rs[1], e1, errors@);
            assert(rs.take(1).push(rs[1]) =~= rs);
        }
        errors.into_result()
    }
}

/// A product: id and name of 3 to 200 characters, and at least one variant, each valid.
#[derive(Debug)]
pub struct Product {
    pub id: String,
    pub name: String,
    pub variants: Vec<ProductVariant>,
}

/// The violation sets of each element of `vs`, in order.
pub open spec fn variant_violations(vs: Seq<ProductVariant>) -> Seq<Seq<ViolationView>> {
    vs.map_values(|v: ProductVariant| collected(v.reports()))
}

impl Validate for Product {
    open spec fn reports(&self) -> Seq<FieldReport> {
        seq![
            length_report("id"@, self.id@, 3, 200, length_error()),
            length_report("name"@, self.name@, 3, 200, length_error()),
            FieldReport { key: "variants"@, found: list_found(variant_violations(self.variants@)) },
            count_report("variants"@, self.variants@.len(), 1, length_error()),
        ]
    }

    fn validate(&self) -> (r: Result<(), ValidationErrors>) {
        let ghost rs = self.reports();
        let ghost kids = variant_violations(self.variants@);
        let mut errors = ValidationErrors::new();
        assert(errors@ =~= collected(rs.take(0)));
        let ghost e0 = errors@;
        check_length(&mut errors, "id", self.id.as_str(), 3, 200, "length", None);
        proof {
            lemma_collected_step(rs.take(0), rs[0], e0, errors@);
            assert(rs.take(0).push(rs[0]) =~= rs.take(1));
        }
        let ghost e1 = errors@;
        check_length(&mut errors, "name", self.name.as_str(), 3, 200, "length", None);
        proof {
            lemma_collected_step(rs.take(1), rs[1], e1, errors@);
            assert(rs.take(1).push(rs[1]) =~= rs.take(2));
        }
        let ghost e2 = errors@;
        let ghost pre = seq![StepView::Field("variants"@)];
        let n = self.variants.len();
        let mut i: usize = 0;
        assert(errors@ =~= e2 + prefixed(pre, list_found(kids.take(0))));
        while i < n
            invariant
                i <= n,
                n == self.variants@.len(),
                kids == variant_violations(self.variants@),
                pre == seq![StepView::Field("variants"@)],
                errors@ == e2 + prefixed(pre, list_found(kids.take(i as int))),
            decreases n - i,
        {
            let ghost before = errors@;
            proof {
                let t = kids.take(i + 1);
                assert(t.drop_last() =~= kids.take(i as int));
                lemma_prefixed_concat(
                    pre,
                    list_found(kids.take(i as int)),
                    prefixed(seq![StepView::Index(i as nat)], kids[i as int]),
                );
                lemma_prefixed_twice(pre, seq![StepView::Index(i as nat)], kids[i as int]);
                assert(pre + seq![StepView::Index(i as nat)] =~= seq![
                    StepView::Field("variants"@),
                    StepView::Index(i as nat),
                ]);
            }
            match self.variants[i].validate() {
                Ok(()) => {
                    assert(prefixed(pre, list_found(kids.take(i + 1))) =~= prefixed(
                        pre,
                        list_found(kids.take(i as int)),
                    ));
                },
                Err(child) => {
                    errors.add_nested_item("variants", i, child);
                },
            }
            assert(errors@ =~= e2 + prefixed(pre, list_found(kids.take(i + 1))));
            i = i + 1;
        }
        proof {
            assert(kids.take(n as int) =~= kids);
            lemma_collected_step(rs.take(2), rs[2], e2, errors@);
            assert(rs.take(2).push(rs[2]) =~= rs.take(3));
        }
        let ghost e3 = errors@;
        check_count(&mut errors, "variants", self.variants.len(), 1, "length");
        proof {
            lemma_collected_step(rs.take(3), rs[3], e3, errors@);
            assert(rs.take(3).push(rs[3]) =~= rs);
        }
        errors.into_result()
    }
}

} // verus!
