use weekend_at_joes::auth::role::any_satisfies;
use weekend_at_joes::auth::{
    authorize, authorize_at, is_same_user, judge, AuthError, Identity, Jwt, RevocationRegistry,
    Secret, UserRole,
};

fn claims(roles: Vec<UserRole>, expiry: i64) -> Jwt {
    Jwt {
        user_name: "name".to_string(),
        user_roles: roles,
        token_key: "aoeuaoeu".to_string(),
        token_expire_date: expiry,
    }
}

fn identity(roles: Vec<UserRole>) -> Identity {
    Identity { user_name: "name".to_string(), roles, token_key: "aoeuaoeu".to_string() }
}

fn header_with(jwt: &Jwt, secret: &Secret) -> Vec<String> {
    vec![jwt.encode_jwt_string(&secret.0).unwrap()]
}

#[test]
fn every_role_satisfies_itself_and_the_roles_below() {
    let order =
        [UserRole::Unprivileged, UserRole::NormalUser, UserRole::Moderator, UserRole::Admin];
    for (i, held) in order.iter().enumerate() {
        for (j, required) in order.iter().enumerate() {
            assert_eq!(held.satisfies(*required), i >= j);
        }
    }
}

#[test]
fn one_sufficient_role_among_many_is_enough() {
    assert!(any_satisfies(&vec![UserRole::Unprivileged, UserRole::Moderator], UserRole::NormalUser));
    assert!(!any_satisfies(&vec![UserRole::Unprivileged, UserRole::NormalUser], UserRole::Moderator));
    assert!(!any_satisfies(&vec![], UserRole::Unprivileged));
}

#[test]
fn admin_passes_a_check_for_moderator() {
    let registry = RevocationRegistry::new();
    assert_eq!(
        judge(claims(vec![UserRole::Admin], 100), UserRole::Moderator, &registry, 50),
        Ok(identity(vec![UserRole::Admin]))
    );
}

#[test]
fn unprivileged_fails_a_check_for_normal_user() {
    let registry = RevocationRegistry::new();
    assert_eq!(
        judge(claims(vec![UserRole::Unprivileged], 100), UserRole::NormalUser, &registry, 50),
        Err(AuthError::InsufficientRole)
    );
}

#[test]
fn token_without_roles_fails_every_check() {
    let registry = RevocationRegistry::new();
    assert_eq!(
        judge(claims(vec![], 100), UserRole::Unprivileged, &registry, 50),
        Err(AuthError::InsufficientRole)
    );
}

#[test]
fn token_is_good_until_the_second_of_its_expiry() {
    let registry = RevocationRegistry::new();
    let roles = vec![UserRole::NormalUser];
    assert_eq!(
        judge(claims(roles.clone(), 100), UserRole::NormalUser, &registry, 99),
        Ok(identity(roles.clone()))
    );
    assert_eq!(
        judge(claims(roles.clone(), 100), UserRole::NormalUser, &registry, 100),
        Ok(identity(roles.clone()))
    );
    assert_eq!(
        judge(claims(roles.clone(), 100), UserRole::NormalUser, &registry, 101),
        Err(AuthError::TokenExpired)
    );
    assert_eq!(
        judge(claims(roles.clone(), i64::MAX), UserRole::NormalUser, &registry, i64::MAX),
        Ok(identity(roles.clone()))
    );
    assert_eq!(
        judge(claims(roles, i64::MIN), UserRole::NormalUser, &registry, i64::MIN + 1),
        Err(AuthError::TokenExpired)
    );
}

#[test]
fn revoked_token_is_turned_away() {
    let mut registry = RevocationRegistry::new();
    let roles = vec![UserRole::Admin];
    assert!(!registry.is_revoked("aoeuaoeu"));
    assert_eq!(
        judge(claims(roles.clone(), 100), UserRole::Unprivileged, &registry, 50),
        Ok(identity(roles.clone()))
    );
    registry.revoke("aoeuaoeu".to_string());
    assert!(registry.is_revoked("aoeuaoeu"));
    assert_eq!(
        judge(claims(roles.clone(), 100), UserRole::Unprivileged, &registry, 50),
        Err(AuthError::TokenRevoked)
    );
    registry.revoke("other".to_string());
    assert_eq!(
        judge(claims(roles, 100), UserRole::Unprivileged, &registry, 50),
        Err(AuthError::TokenRevoked)
    );
}

#[test]
fn checks_come_in_order() {
    let mut registry = RevocationRegistry::new();
    registry.revoke("aoeuaoeu".to_string());
    assert_eq!(
        judge(claims(vec![], 100), UserRole::Admin, &registry, 101),
        Err(AuthError::TokenExpired)
    );
    assert_eq!(
        judge(claims(vec![], 100), UserRole::Admin, &registry, 100),
        Err(AuthError::TokenRevoked)
    );
}

#[test]
fn revoking_is_idempotent() {
    let mut registry = RevocationRegistry::new();
    assert_eq!(registry.count(), 0);
    registry.revoke("a".to_string());
    registry.revoke("b".to_string());
    assert_eq!(registry.count(), 2);
    registry.revoke("a".to_string());
    assert_eq!(registry.count(), 2);
    assert!(registry.is_revoked("a"));
    assert!(registry.is_revoked("b"));
    assert!(!registry.is_revoked("c"));
    assert!(!registry.is_revoked(""));
    assert!(!registry.is_revoked("A"));
}

#[test]
fn request_without_exactly_one_token_is_turned_away() {
    let secret = Secret("secret".to_string());
    let registry = RevocationRegistry::new();
    let one = header_with(&claims(vec![UserRole::Admin], 100), &secret);
    assert_eq!(
        authorize_at(&vec![], UserRole::Unprivileged, &secret, &registry, 50),
        Err(AuthError::MissingToken)
    );
    assert_eq!(
        authorize_at(
            &vec![one[0].clone(), one[0].clone()],
            UserRole::Unprivileged,
            &secret,
            &registry,
            50
        ),
        Err(AuthError::MissingToken)
    );
    assert_eq!(
        authorize(&vec![], UserRole::Unprivileged, &secret, &registry),
        Err(AuthError::MissingToken)
    );
}

#[test]
fn request_with_an_empty_header_value_is_turned_away_as_missing() {
    let secret = Secret("secret".to_string());
    let mut registry = RevocationRegistry::new();
    registry.revoke(String::new());
    assert_eq!(
        authorize_at(&vec![String::new()], UserRole::Unprivileged, &secret, &registry, 50),
        Err(AuthError::MissingToken)
    );
    assert_eq!(
        authorize(&vec![String::new()], UserRole::Moderator, &secret, &registry),
        Err(AuthError::MissingToken)
    );
    assert_eq!(
        authorize_at(
            &vec![String::new(), String::new()],
            UserRole::Unprivileged,
            &secret,
            &registry,
            50
        ),
        Err(AuthError::MissingToken)
    );
}

#[test]
fn nobody_writes_under_another_name() {
    assert!(is_same_user("name", "name"));
    assert!(is_same_user("", ""));
    assert!(!is_same_user("name", "Name"));
    assert!(!is_same_user("name", "name "));
    assert!(!is_same_user("name", ""));
}

#[test]
fn request_with_bad_token_is_turned_away() {
    let secret = Secret("secret".to_string());
    let other = Secret("other".to_string());
    let registry = RevocationRegistry::new();
    let header = header_with(&claims(vec![UserRole::Admin], 100), &other);
    assert_eq!(
        authorize_at(&header, UserRole::Unprivileged, &secret, &registry, 50),
        Err(AuthError::InvalidToken)
    );
    assert_eq!(
        authorize_at(&vec![" ".to_string()], UserRole::Unprivileged, &secret, &registry, 50),
        Err(AuthError::InvalidToken)
    );
    assert_eq!(
        authorize(&vec!["Bearer x".to_string()], UserRole::Unprivileged, &secret, &registry),
        Err(AuthError::InvalidToken)
    );
}

#[test]
fn request_is_authorized_step_by_step() {
    let secret = Secret("secret".to_string());
    let mut registry = RevocationRegistry::new();
    let roles = vec![UserRole::Moderator];
    let header = header_with(&claims(roles.clone(), 100), &secret);
    assert_eq!(
        authorize_at(&header, UserRole::NormalUser, &secret, &registry, 100),
        Ok(identity(roles))
    );
    assert_eq!(
        authorize_at(&header, UserRole::Admin, &secret, &registry, 100),
        Err(AuthError::InsufficientRole)
    );
    assert_eq!(
        authorize_at(&header, UserRole::NormalUser, &secret, &registry, 101),
        Err(AuthError::TokenExpired)
    );
    registry.revoke("aoeuaoeu".to_string());
    assert_eq!(
        authorize_at(&header, UserRole::NormalUser, &secret, &registry, 100),
        Err(AuthError::TokenRevoked)
    );
}

#[test]
fn request_is_authorized_by_the_clock() {
    let secret = Secret::generate();
    let mut registry = RevocationRegistry::new();
    let roles = vec![UserRole::NormalUser];
    let fresh = header_with(&claims(roles.clone(), chrono::Utc::now().timestamp() + 3600), &secret);
    let stale = header_with(&claims(roles.clone(), chrono::Utc::now().timestamp() - 3600), &secret);
    assert_eq!(authorize(&fresh, UserRole::NormalUser, &secret, &registry), Ok(identity(roles)));
    assert_eq!(
        authorize(&fresh, UserRole::Moderator, &secret, &registry),
        Err(AuthError::InsufficientRole)
    );
    assert_eq!(
        authorize(&stale, UserRole::NormalUser, &secret, &registry),
        Err(AuthError::TokenExpired)
    );
    registry.revoke("aoeuaoeu".to_string());
    assert_eq!(
        authorize(&fresh, UserRole::NormalUser, &secret, &registry),
        Err(AuthError::TokenRevoked)
    );
}

#[test]
fn auth_errors_map_to_statuses() {
    assert_eq!(AuthError::MissingToken.status_code(), 401);
    assert_eq!(AuthError::InvalidToken.status_code(), 401);
    assert_eq!(AuthError::TokenExpired.status_code(), 401);
    assert_eq!(AuthError::TokenRevoked.status_code(), 401);
    assert_eq!(AuthError::InsufficientRole.status_code(), 403);
}
