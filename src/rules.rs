use vstd::prelude::*;
use vstd::string::*;
use crate::errors::{
    opt_str_view, report_violations, ErrorView, FieldReport, ValidationError, ValidationErrors,
    ViolationView,
};

verus! {

/// The Unicode `White_Space` property.
pub open spec fn is_white_space(c: char) -> bool {
    let u = c as u32;
    (0x9 <= u && u <= 0xd) || u == 0x20 || u == 0x85 || u == 0xa0 || u == 0x1680 || (0x2000 <= u
        && u <= 0x200a) || u == 0x2028 || u == 0x2029 || u == 0x202f || u == 0x205f || u == 0x3000
}

/// Text that is empty once surrounding whitespace is removed.
pub open spec fn is_blank(s: Seq<char>) -> bool {
    forall|i: int| 0 <= i < s.len() ==> is_white_space(s[i])
}

/// `t` is `s` with some whitespace removed from its start and from its end.
pub open spec fn trimmed_from(s: Seq<char>, t: Seq<char>) -> bool {
    exists|a: int, b: int|
        0 <= a <= b <= s.len() && t == s.subrange(a, b) && (forall|i: int|
            0 <= i < a ==> is_white_space(s[i])) && (forall|i: int|
            b <= i < s.len() ==> is_white_space(s[i]))
}

/// Relies on str::trim: the result is the input without its leading and trailing
/// characters that have the White_Space property.
#[verifier::external_body]
fn trim<'a>(s: &'a str) -> (r: &'a str)
    ensures
        trimmed_from(s@, r@),
        r@.len() > 0 ==> !is_white_space(r@[0]) && !is_white_space(r@.last()),
{
    s.trim()
}

/// A violation reported by a rule on the value it was given, before any path is attached.
pub open spec fn single(e: ErrorView) -> Seq<ViolationView> {
    seq![ViolationView { path: Seq::empty(), error: e }]
}

/// A rule's result as a mathematical value.
pub open spec fn result_view(r: Result<(), ValidationError>) -> Result<(), ErrorView> {
    match r {
        Ok(()) => Ok(()),
        Err(e) => Err(e@),
    }
}

/// The error of the non-blank rule.
pub open spec fn not_blank_error() -> ErrorView {
    ErrorView { code: "not_blank"@, message: Some("Value cannot be blank"@) }
}

/// What the non-blank rule decides on `s`.
pub open spec fn not_blank_result(s: Seq<char>) -> Result<(), ErrorView> {
    if is_blank(s) {
        Err(not_blank_error())
    } else {
        Ok(())
    }
}

/// Fails with code `not_blank` exactly when the text is only whitespace.
pub fn not_blank(value: &str) -> (r: Result<(), ValidationError>)
    ensures
        result_view(r) == not_blank_result(value@),
{
    let t = trim(value);
    if t.is_empty() {
        proof {
            let (a, b) = choose|a: int, b: int|
                0 <= a <= b <= value@.len() && t@ == value@.subrange(a, b) && (forall|i: int|
                    0 <= i < a ==> is_white_space(value@[i])) && (forall|i: int|
                    b <= i < value@.len() ==> is_white_space(value@[i]));
            assert(a == b);
        }
        return Err(ValidationError::new("not_blank", Some("Value cannot be blank")));
    }
    proof {
        let (a, b) = choose|a: int, b: int|
            0 <= a <= b <= value@.len() && t@ == value@.subrange(a, b) && (forall|i: int|
                0 <= i < a ==> is_white_space(value@[i])) && (forall|i: int|
                b <= i < value@.len() ==> is_white_space(value@[i]));
        assert(t@[0] == value@[a]);
    }
    Ok(())
}

/// What a field's character count checked against `[min, max]` reports.
pub open spec fn length_report(
    key: Seq<char>,
    value: Seq<char>,
    min: nat,
    max: nat,
    error: ErrorView,
) -> FieldReport {
    FieldReport {
        key,
        found: if min <= value.len() && value.len() <= max {
            Seq::empty()
        } else {
            single(error)
        },
    }
}

/// Length rule: records `code`/`message` under `field` when the character count of `value`
/// lies outside `[min, max]`. Characters are counted as given, before any trimming, so
/// whitespace-only text can pass this rule while failing the non-blank one.
pub fn check_length(
    errors: &mut ValidationErrors,
    field: &str,
    value: &str,
    min: usize,
    max: usize,
    code: &str,
    message: Option<&str>,
)
    ensures
        final(errors)@ == old(errors)@ + report_violations(
            length_report(
                field@,
                value@,
                min as nat,
                max as nat,
                ErrorView { code: code@, message: opt_str_view(message) },
            ),
        ),
{
    let n = value.unicode_len();
    let ghost r = length_report(
        field@,
        value@,
        min as nat,
        max as nat,
        ErrorView { code: code@, message: opt_str_view(message) },
    );
    if n < min || n > max {
        errors.add(field, ValidationError::new(code, message));
    } else {
        assert(report_violations(r) =~= Seq::empty());
        assert(final(errors)@ =~= old(errors)@ + report_violations(r));
    }
}

/// What a collection field whose element count must be at least `min` reports.
pub open spec fn count_report(key: Seq<char>, count: nat, min: nat, error: ErrorView) -> FieldReport {
    FieldReport { key, found: if min <= count { Seq::empty() } else { single(error) } }
}

/// Minimum-count rule on a collection field.
pub fn check_count(errors: &mut ValidationErrors, field: &str, count: usize, min: usize, code: &str)
    ensures
        final(errors)@ == old(errors)@ + report_violations(
            count_report(field@, count as nat, min as nat, ErrorView { code: code@, message: None }),
        ),
{
    let ghost r = count_report(
        field@,
        count as nat,
        min as nat,
        ErrorView { code: code@, message: None },
    );
    if count < min {
        errors.add(field, ValidationError::new(code, None));
    } else {
        assert(report_violations(r) =~= Seq::empty());
        assert(final(errors)@ =~= old(errors)@ + report_violations(r));
    }
}

/// What a numeric field checked against `[min, max]` reports.
pub open spec fn range_report(key: Seq<char>, value: int, min: int, max: int, error: ErrorView) -> FieldReport {
    FieldReport {
        key,
        found: if min <= value && value <= max {
            Seq::empty()
        } else {
            single(error)
        },
    }
}

/// Numeric-range rule: records `code` under `field` when `value` lies outside `[min, max]`.
pub fn check_range(errors: &mut ValidationErrors, field: &str, value: i64, min: i64, max: i64, code: &str)
    ensures
        final(errors)@ == old(errors)@ + report_violations(
            range_report(field@, value as int, min as int, max as int, ErrorView { code: code@, message: None }),
        ),
{
    let ghost r = range_report(
        field@,
        value as int,
        min as int,
        max as int,
        ErrorView { code: code@, message: None },
    );
    if value < min || value > max {
        errors.add(field, ValidationError::new(code, None));
    } else {
        assert(report_violations(r) =~= Seq::empty());
        assert(final(errors)@ =~= old(errors)@ + report_violations(r));
    }
}

/// What a custom rule that returned `r` reports under `key`; a configured `message`
/// replaces the rule's own.
pub open spec fn rule_report(key: Seq<char>, r: Result<(), ErrorView>, message: Option<Seq<char>>) -> FieldReport {
    FieldReport {
        key,
        found: match r {
            Ok(()) => Seq::empty(),
            Err(e) => single(
                ErrorView {
                    code: e.code,
                    message: match message {
                        Some(m) => Some(m),
                        None => e.message,
                    },
                },
            ),
        },
    }
}

/// Records the outcome of a custom field or record rule under `field`.
pub fn check_rule(
    errors: &mut ValidationErrors,
    field: &str,
    r: Result<(), ValidationError>,
    message: Option<&str>,
)
    ensures
        final(errors)@ == old(errors)@ + report_violations(
            rule_report(field@, result_view(r), opt_str_view(message)),
        ),
{
    let ghost rep = rule_report(field@, result_view(r), opt_str_view(message));
    match r {
        Ok(()) => {
            assert(report_violations(rep) =~= Seq::empty());
            assert(final(errors)@ =~= old(errors)@ + report_violations(rep));
        },
        Err(e) => {
            let e = match message {
                Some(m) => ValidationError { code: e.code, message: Some(m.to_owned()) },
                None => e,
            };
            errors.add(field, e);
        },
    }
}

} // verus!
