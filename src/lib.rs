pub mod errors;
pub mod laws;
pub mod register;
pub mod requests;
pub mod rules;

pub use errors::{PathStep, Validate, ValidationError, ValidationErrors, Violation};
pub use register::{
    can_register, password_equals_confirm_password, AddressRequest, DatabaseContext,
    RegisterUserRequest,
};
pub use requests::{CreateCategoryRequest, LoginRequest, Product, ProductVariant};
pub use rules::not_blank;
