use vstd::prelude::*;
use vstd::string::*;
use crate::errors::{
    collected, lemma_collected_step, outcome, ErrorView, FieldReport, Validate, ValidationError,
    ValidationErrors,
};
use crate::requests::length_error;
use crate::rules::{check_length, check_rule, length_report, result_view, rule_report};

verus! {

/// A postal address: street, city and country of 1 to 100 characters each.
#[derive(Debug)]
pub struct AddressRequest {
    pub street: String,
    pub city: String,
    pub country: String,
}

impl Validate for AddressRequest {
    open spec fn reports(&self) -> Seq<FieldReport> {
        seq![
            length_report("street"@, self.street@, 1, 100, length_error()),
            length_report("city"@, self.city@, 1, 100, length_error()),
            length_report("country"@, self.country@, 1, 100, length_error()),
        ]
    }

    fn validate(&self) -> (r: Result<(), ValidationErrors>) {
        let ghost rs = self.reports();
        let mut errors = ValidationErrors::new();
        assert(errors@ =~= collected(rs.take(0)));
        let ghost e0 = errors@;
        check_length(&mut errors, "street", self.street.as_str(), 1, 100, "length", None);
        proof {
            lemma_collected_step(rs.take(0), rs[0], e0, errors@);
            assert(rs.take(0).push(rs[0]) =~= rs.take(1));
        }
        let ghost e1 = errors@;
        check_length(&mut errors, "city", self.city.as_str(), 1, 100, "length", None);
        proof {
            lemma_collected_step(rs.take(1), rs[1], e1, errors@);
            assert(rs.take(1).push(rs[1]) =~= rs.take(2));
        }
        let ghost e2 = errors@;
        check_length(&mut errors, "country", self.country.as_str(), 1, 100, "length", None);
        proof {
            lemma_collected_step(rs.take(2), rs[2], e2, errors@);
            assert(rs.take(2).push(rs[2]) =~= rs);
        }
        errors.into_result()
    }
}

/// Read-only counts consulted by the capacity rule at validation time.
#[derive(Debug)]
pub struct DatabaseContext {
    pub total: i32,
    pub max_data: i32,
}

/// A registration submission, checked field by field and then by two record rules.
#[derive(Debug)]
pub struct RegisterUserRequest {
    pub username: String,
    pub password: String,
    pub confirm_password: String,
    pub name: String,
    pub address: AddressRequest,
}

/// What the password confirmation rule decides on `request`.
pub open spec fn password_match_result(request: RegisterUserRequest) -> Result<(), ErrorView> {
    if request.password@ == request.confirm_password@ {
        Ok(())
    } else {
        Err(
            ErrorView {
                code: "password_equals_confirm_password"@,
                message: Some("Password and confirm password must be same"@),
            },
        )
    }
}

/// Fails with code `password_equals_confirm_password` exactly when the password and its
/// confirmation differ.
pub fn password_equals_confirm_password(request: &RegisterUserRequest) -> (r: Result<(), ValidationError>)
    ensures
        result_view(r) == password_match_result(*request),
{
    if request.password != request.confirm_password {
        return Err(
            ValidationError::new(
                "password_equals_confirm_password",
                Some("Password and confirm password must be same"),
            ),
        );
    }
    Ok(())
}

/// What the capacity rule decides on `request` under `context`.
pub open spec fn capacity_result(request: RegisterUserRequest, context: DatabaseContext) -> Result<(), ErrorView> {
    if context.total >= context.max_data {
        Err(
            ErrorView {
                code: "can_register"@,
                message: Some(
                    "cannot register user "@ + request.username@ + ", database is full"@,
                ),
            },
        )
    } else {
        Ok(())
    }
}

/// Fails with code `can_register` exactly when the database already holds `max_data` users
/// or more.
pub fn can_register(request: &RegisterUserRequest, context: &DatabaseContext) -> (r: Result<(), ValidationError>)
    ensures
        result_view(r) == capacity_result(*request, *context),
{
    if context.total >= context.max_data {
        let mut message = "cannot register user ".to_owned();
        message.append(request.username.as_str());
        message.append(", database is full");
        return Err(ValidationError { code: "can_register".to_owned(), message: Some(message) });
    }
    Ok(())
}

impl RegisterUserRequest {
    /// In declaration order: the four length rules, the embedded address, then the two
    /// record rules, which run whether or not a field rule failed.
    pub open spec fn reports_with(&self, context: DatabaseContext) -> Seq<FieldReport> {
        seq![
            length_report("username"@, self.username@, 3, 20, ErrorView { code: "username"@, message: None }),
            length_report("password"@, self.password@, 3, 20, ErrorView { code: "password"@, message: None }),
            length_report(
                "confirm_password"@,
                self.confirm_password@,
                3,
                20,
                ErrorView { code: "confirm_password"@, message: None },
            ),
            length_report("name"@, self.name@, 3, 100, ErrorView { code: "name"@, message: None }),
            FieldReport { key: "address"@, found: collected(self.address.reports()) },
            rule_report(
                "password"@,
                password_match_result(*self),
                Some("password != confirm password"@),
            ),
            rule_report("username"@, capacity_result(*self, context), None),
        ]
    }

    /// Runs every rule, the capacity rule against `context`, and returns all violations.
    pub fn validate_with_args(&self, context: &DatabaseContext) -> (r: Result<(), ValidationErrors>)
        ensures
            outcome(r, collected(self.reports_with(*context))),
    {
        let ghost rs = self.reports_with(*context);
        let mut errors = ValidationErrors::new();
        assert(errors@ =~= collected(rs.take(0)));
        let ghost e0 = errors@;
        check_length(&mut errors, "username", self.username.as_str(), 3, 20, "username", None);
        proof {
            lemma_collected_step(rs.take(0), rs[0], e0, errors@);
            assert(rs.take(0).push(rs[0]) =~= rs.take(1));
        }
        let ghost e1 = errors@;
        check_length(&mut errors, "password", self.password.as_str(), 3, 20, "password", None);
        proof {
            lemma_collected_step(rs.take(1), rs[1], e1, errors@);
            assert(rs.take(1).push(rs[1]) =~= rs.take(2));
        }
        let ghost e2 = errors@;
        check_length(
            &mut errors,
            "confirm_password",
            self.confirm_password.as_str(),
            3,
            20,
            "confirm_password",
            None,
        );
        proof {
            lemma_collected_step(rs.take(2), rs[2], e2, errors@);
            assert(rs.take(2).push(rs[2]) =~= rs.take(3));
        }
        let ghost e3 = errors@;
        check_length(&mut errors, "name", self.name.as_str(), 3, 100, "name", None);
        proof {
            lemma_collected_step(rs.take(3), rs[3], e3, errors@);
            assert(rs.take(3).push(rs[3]) =~= rs.take(4));
        }
        let ghost e4 = errors@;
        match self.address.validate() {
            Ok(()) => {},
            Err(child) => errors.add_nested("address", child),
        }
        proof {
            crate::errors::lemma_prefixed_empty(rs[4]);
            lemma_collected_step(rs.take(4), rs[4], e4, errors@);
            assert(rs.take(4).push(rs[4]) =~= rs.take(5));
        }
        let ghost e5 = errors@;
        check_rule(
            &mut errors,
            "password",
            password_equals_confirm_password(self),
            Some("password != confirm password"),
        );
        proof {
            lemma_collected_step(rs.take(5), rs[5], e5, errors@);
            assert(rs.take(5).push(rs[5]) =~= rs.take(6));
        }
        let ghost e6 = errors@;
        check_rule(&mut errors, "username", can_register(self, context), None);
        proof {
            lemma_collected_step(rs.take(6), rs[6], e6, errors@);
            assert(rs.take(6).push(rs[6]) =~= rs);
        }
        errors.into_result()
    }
}

} // verus!
