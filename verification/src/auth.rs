//! Authentication and authorization.

pub mod ambient;
pub mod guard;
pub mod jwt;
pub mod login;
pub mod password;
pub mod payload;
pub mod revocation;
pub mod role;

pub use self::guard::{authorize, authorize_at, is_same_user, judge, AuthError, Identity};
pub use self::jwt::{Jwt, JwtError};
pub use self::login::{login, LoginError, LoginRequest, LoginResult, Secret, User};
pub use self::password::{hash_password, verify_hash, HashingError};
pub use self::revocation::RevocationRegistry;
pub use self::role::UserRole;
