use validation::{
    can_register, not_blank, password_equals_confirm_password, AddressRequest,
    CreateCategoryRequest, DatabaseContext, LoginRequest, PathStep, Product, ProductVariant,
    RegisterUserRequest, Validate, ValidationErrors, Violation,
};

fn path_of(v: &Violation) -> Vec<String> {
    v.path
        .iter()
        .map(|s| match s {
            PathStep::Field(name) => name.clone(),
            PathStep::Index(i) => format!("[{}]", i),
        })
        .collect()
}

fn paths(errors: &ValidationErrors) -> Vec<Vec<String>> {
    errors.violations.iter().map(path_of).collect()
}

fn under<'a>(errors: &'a ValidationErrors, key: &str) -> Vec<&'a Violation> {
    errors
        .violations
        .iter()
        .filter(|v| matches!(v.path.first(), Some(PathStep::Field(name)) if name == key))
        .collect()
}

fn register_request(
    username: &str,
    password: &str,
    confirm_password: &str,
    name: &str,
    address: (&str, &str, &str),
) -> RegisterUserRequest {
    RegisterUserRequest {
        username: username.to_string(),
        password: password.to_string(),
        confirm_password: confirm_password.to_string(),
        name: name.to_string(),
        address: AddressRequest {
            street: address.0.to_string(),
            city: address.1.to_string(),
            country: address.2.to_string(),
        },
    }
}

#[test]
fn test_custom_validation() {
    let request = CreateCategoryRequest {
        id: "".to_string(),
        name: "        ".to_string(),
    };

    let errors: ValidationErrors = request.validate().err().unwrap();
    println!("{:?}", errors.violations);
}

#[test]
fn test_validate_vector_success() {
    let request = Product {
        id: "product-1".to_string(),
        name: "product-1".to_string(),
        variants: vec![
            ProductVariant {
                name: "variant-1".to_string(),
                price: 1000,
            },
            ProductVariant {
                name: "variant-2".to_string(),
                price: 2000,
            },
        ],
    };

    assert!(request.validate().is_ok());
}

#[test]
fn test_validate_vector_error() {
    let request = Product {
        id: "product-1".to_string(),
        name: "product-1".to_string(),
        variants: vec![
            ProductVariant {
                name: "".to_string(),
                price: -1000,
            },
            ProductVariant {
                name: "".to_string(),
                price: -2000,
            },
        ],
    };

    assert!(request.validate().is_err());
    let error = request.validate().err().unwrap();
    println!("{:?}", error.violations);
}

#[test]
fn test_nested_struct_success() {
    let request = register_request(
        "ekoatro",
        "passwortaro",
        "passwortaro",
        "ekotaro",
        ("jalan", "kota", "negara japantaro"),
    );

    let context = DatabaseContext {
        total: 100,
        max_data: 1000,
    };

    assert!(request.validate_with_args(&context).is_ok());
}

#[test]
fn test_nested_struct_error() {
    let request = register_request("o", "passwortaro", "salah", "", ("", "", ""));

    let context = DatabaseContext {
        total: 100,
        max_data: 100,
    };

    assert!(request.validate_with_args(&context).is_err());

    let errors: ValidationErrors = request.validate_with_args(&context).err().unwrap();
    println!("{:#?}", errors.violations);
}

#[test]
fn test_validate_success() {
    let login = LoginRequest {
        username: "eko".to_string(),
        password: "rahasia".to_string(),
    };

    assert!(login.validate().is_ok());
}

#[test]
fn test_validate_failed() {
    let login = LoginRequest {
        username: "ek".to_string(),
        password: "rahasia".to_string(),
    };

    assert!(login.validate().is_err());

    let errors: ValidationErrors = login.validate().err().unwrap();
    println!("errors: {:#?}", errors);
}

#[test]
fn blank_category_reports_both_fields() {
    let request = CreateCategoryRequest {
        id: "".to_string(),
        name: "        ".to_string(),
    };
    let errors = request.validate().err().unwrap();
    assert_eq!(paths(&errors), vec![vec!["id".to_string()], vec!["name".to_string()]]);
    for v in &errors.violations {
        assert_eq!(v.error.code, "not_blank");
        assert_eq!(v.error.message.as_deref(), Some("Value cannot be blank"));
    }
}

#[test]
fn not_blank_trims_unicode_whitespace() {
    assert!(not_blank("").is_err());
    assert!(not_blank("   ").is_err());
    assert!(not_blank(" \t\n\r\u{b}\u{c}").is_err());
    assert!(not_blank("\u{85}\u{a0}\u{1680}\u{2000}\u{200a}\u{2028}\u{2029}\u{202f}\u{205f}\u{3000}").is_err());
    assert!(not_blank(" a ").is_ok());
    assert!(not_blank("x").is_ok());
    assert!(not_blank("\u{200b}").is_ok());
    let e = not_blank("  ").err().unwrap();
    assert_eq!(e.code, "not_blank");
    assert_eq!(e.message.as_deref(), Some("Value cannot be blank"));
}

#[test]
fn login_short_username_has_one_violation() {
    let login = LoginRequest {
        username: "ek".to_string(),
        password: "rahasia".to_string(),
    };
    let errors = login.validate().err().unwrap();
    assert_eq!(errors.violations.len(), 1);
    let found = under(&errors, "username");
    assert_eq!(found.len(), 1);
    assert_eq!(found[0].error.code, "length");
    assert_eq!(
        found[0].error.message.as_deref(),
        Some("username length must be between 3 and 20")
    );
    assert!(under(&errors, "password").is_empty());
}

#[test]
fn login_length_counts_characters() {
    let ok = LoginRequest {
        username: "ééé".to_string(),
        password: "é".repeat(20),
    };
    assert!(ok.validate().is_ok());
    let short = LoginRequest {
        username: "éé".to_string(),
        password: "é".repeat(21),
    };
    let errors = short.validate().err().unwrap();
    assert_eq!(
        paths(&errors),
        vec![vec!["username".to_string()], vec!["password".to_string()]]
    );
    assert_eq!(
        errors.violations[1].error.message.as_deref(),
        Some("password length must be between 3 and 20")
    );
}

#[test]
fn variant_price_bounds_are_inclusive() {
    let at = |price: i32| ProductVariant {
        name: "abc".to_string(),
        price,
    };
    assert!(at(12).validate().is_ok());
    assert!(at(100000000).validate().is_ok());
    let low = at(11).validate().err().unwrap();
    assert_eq!(paths(&low), vec![vec!["price".to_string()]]);
    assert_eq!(low.violations[0].error.code, "range");
    assert!(at(100000001).validate().is_err());
}

#[test]
fn invalid_variants_grouped_by_index() {
    let request = Product {
        id: "product-1".to_string(),
        name: "product-1".to_string(),
        variants: vec![
            ProductVariant {
                name: "".to_string(),
                price: -1000,
            },
            ProductVariant {
                name: "".to_string(),
                price: -2000,
            },
        ],
    };
    let errors = request.validate().err().unwrap();
    let s = |x: &str| x.to_string();
    assert_eq!(
        paths(&errors),
        vec![
            vec![s("variants"), s("[0]"), s("name")],
            vec![s("variants"), s("[0]"), s("price")],
            vec![s("variants"), s("[1]"), s("name")],
            vec![s("variants"), s("[1]"), s("price")],
        ]
    );
    assert_eq!(errors.violations[0].error.code, "length");
    assert_eq!(errors.violations[1].error.code, "range");
}

#[test]
fn product_without_variants_fails_count() {
    let request = Product {
        id: "pr".to_string(),
        name: "product-1".to_string(),
        variants: vec![],
    };
    let errors = request.validate().err().unwrap();
    assert_eq!(
        paths(&errors),
        vec![vec!["id".to_string()], vec!["variants".to_string()]]
    );
    assert_eq!(errors.violations[1].error.code, "length");
}

#[test]
fn register_errors_collect_every_rule() {
    let request = register_request("o", "passwortaro", "salah", "", ("", "", ""));
    let context = DatabaseContext {
        total: 100,
        max_data: 100,
    };
    let errors = request.validate_with_args(&context).err().unwrap();
    let s = |x: &str| x.to_string();
    assert_eq!(
        paths(&errors),
        vec![
            vec![s("username")],
            vec![s("name")],
            vec![s("address"), s("street")],
            vec![s("address"), s("city")],
            vec![s("address"), s("country")],
            vec![s("password")],
            vec![s("username")],
        ]
    );
    let codes: Vec<&str> = errors.violations.iter().map(|v| v.error.code.as_str()).collect();
    assert_eq!(
        codes,
        vec![
            "username",
            "name",
            "length",
            "length",
            "length",
            "password_equals_confirm_password",
            "can_register"
        ]
    );
    assert_eq!(
        errors.violations[5].error.message.as_deref(),
        Some("password != confirm password")
    );
    assert_eq!(
        errors.violations[6].error.message.as_deref(),
        Some("cannot register user o, database is full")
    );
}

#[test]
fn password_mismatch_reported_with_short_fields() {
    let request = register_request("ekoatro", "a", "b", "ekotaro", ("jalan", "kota", "negara"));
    let context = DatabaseContext {
        total: 1,
        max_data: 10,
    };
    let errors = request.validate_with_args(&context).err().unwrap();
    let found = under(&errors, "password");
    assert_eq!(found.len(), 2);
    assert_eq!(found[0].error.code, "password");
    assert_eq!(found[1].error.code, "password_equals_confirm_password");
    assert_eq!(found[1].error.message.as_deref(), Some("password != confirm password"));
}

#[test]
fn capacity_rule_depends_on_context() {
    let request = register_request(
        "ekoatro",
        "passwortaro",
        "passwortaro",
        "ekotaro",
        ("jalan", "kota", "negara japantaro"),
    );
    let room = DatabaseContext {
        total: 999,
        max_data: 1000,
    };
    assert!(request.validate_with_args(&room).is_ok());
    let full = DatabaseContext {
        total: 1000,
        max_data: 1000,
    };
    let errors = request.validate_with_args(&full).err().unwrap();
    assert_eq!(paths(&errors), vec![vec!["username".to_string()]]);
    assert_eq!(errors.violations[0].error.code, "can_register");
    assert_eq!(
        errors.violations[0].error.message.as_deref(),
        Some("cannot register user ekoatro, database is full")
    );
}

#[test]
fn custom_record_rules_directly() {
    let same = register_request("eko", "abc", "abc", "eko", ("a", "b", "c"));
    assert!(password_equals_confirm_password(&same).is_ok());
    let differ = register_request("eko", "abc", "abd", "eko", ("a", "b", "c"));
    let e = password_equals_confirm_password(&differ).err().unwrap();
    assert_eq!(e.code, "password_equals_confirm_password");
    assert_eq!(e.message.as_deref(), Some("Password and confirm password must be same"));
    let over = DatabaseContext {
        total: 5,
        max_data: 3,
    };
    let e = can_register(&same, &over).err().unwrap();
    assert_eq!(e.code, "can_register");
    assert_eq!(e.message.as_deref(), Some("cannot register user eko, database is full"));
    let under_limit = DatabaseContext {
        total: 2,
        max_data: 3,
    };
    assert!(can_register(&same, &under_limit).is_ok());
}

#[test]
fn validating_twice_gives_same_result() {
    let request = register_request("o", "passwortaro", "salah", "", ("", "", ""));
    let context = DatabaseContext {
        total: 100,
        max_data: 100,
    };
    let a = request.validate_with_args(&context).err().unwrap();
    let b = request.validate_with_args(&context).err().unwrap();
    assert_eq!(format!("{:?}", a), format!("{:?}", b));
    let login = LoginRequest {
        username: "ek".to_string(),
        password: "x".to_string(),
    };
    assert_eq!(
        format!("{:?}", login.validate()),
        format!("{:?}", login.validate())
    );
}
