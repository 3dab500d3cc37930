use chrono::Utc;
use weekend_at_joes::auth::login::{
    check_credentials, issue_token, issue_token_for, TOKEN_LIFETIME_SECONDS,
};
use weekend_at_joes::auth::{
    hash_password, login, verify_hash, HashingError, Jwt, JwtError, LoginError, LoginRequest,
    Secret, User, UserRole,
};

fn user_by_name(store: &Vec<User>, name: &str) -> Option<User> {
    store.iter().find(|user| user.user_name == name).cloned()
}

fn store_with_test_user() -> Vec<User> {
    vec![User {
        user_name: "UserName".to_string(),
        password_hash: hash_password("TestPassword").unwrap(),
        roles: vec![UserRole::Unprivileged],
    }]
}

#[test]
fn integration_test() {
    let store = store_with_test_user();
    let login_request: LoginRequest =
        LoginRequest { user_name: "UserName".into(), password: "TestPassword".into() };
    let secret: Secret = Secret::generate();
    let user = user_by_name(&store, &login_request.user_name);
    let response = login(login_request, secret.0, user);
    assert!(response.is_ok());
}

#[test]
fn password_hash_and_verify() {
    let plaintext = "12345";
    let hash_1 = hash_password(plaintext).unwrap();
    match verify_hash(&plaintext, &hash_1) {
        Ok(_) => {}
        Err(_) => {
            assert!(false);
        }
    }
}

#[test]
fn jwt() {
    let secret = "secret".to_string();
    let jwt = Jwt {
        user_name: "name".to_string(),
        token_key: "aoeuaoeu".to_string(),
        user_roles: vec![UserRole::Unprivileged],
        token_expire_date: Utc::now().naive_utc().and_utc().timestamp(),
    };
    let jwt_string: String = jwt.encode_jwt_string(&secret).unwrap();
    let _jwt: Jwt = match Jwt::decode_jwt_string(jwt_string, &secret) {
        Ok(j) => j,
        Err(_) => {
            panic!();
        }
    };
}

#[test]
fn jwt_tampering_detected() {
    let secret = "secret".to_string();
    let jwt = Jwt {
        user_name: "name".to_string(),
        token_key: "aoeuaoeu".to_string(),
        user_roles: vec![UserRole::Unprivileged],
        token_expire_date: Utc::now().naive_utc().and_utc().timestamp(),
    };
    let jwt_string: String = jwt.encode_jwt_string(&secret).unwrap();
    let mut altered_jwt = jwt.clone();
    altered_jwt.user_name = "other_name".to_string();
    let altered_jwt_string = altered_jwt.encode_jwt_string(&secret).unwrap();
    let split_jwt: Vec<&str> = jwt_string.split(".").collect();
    let split_altered_jwt: Vec<&str> = altered_jwt_string.split(".").collect();
    let normal_header: &str = split_jwt.get(0).unwrap();
    let modified_payload: &str = split_altered_jwt.get(1).unwrap();
    let normal_sig: &str = split_jwt.get(2).unwrap();
    let synthesized_jwt_string: String =
        format!("{}.{}.{}", normal_header, modified_payload, normal_sig);
    Jwt::decode_jwt_string(synthesized_jwt_string, &secret)
        .expect_err("Should not be able to decode this modified jwt.");
}

#[test]
fn login_token_decodes_to_the_user() {
    let store = store_with_test_user();
    let login_request =
        LoginRequest { user_name: "UserName".into(), password: "TestPassword".into() };
    let secret = Secret::generate();
    let before = Utc::now().timestamp();
    let user = user_by_name(&store, &login_request.user_name);
    let token = login(login_request, secret.0.clone(), user).unwrap();
    let after = Utc::now().timestamp();
    let claims = Jwt::decode_jwt_string(token, &secret.0).unwrap();
    assert_eq!(claims.user_name, "UserName");
    assert_eq!(claims.user_roles, vec![UserRole::Unprivileged]);
    assert_eq!(claims.token_key.chars().count(), 16);
    assert!(claims.token_key.chars().all(|c| c.is_ascii_alphanumeric()));
    assert!(before + TOKEN_LIFETIME_SECONDS <= claims.token_expire_date);
    assert!(claims.token_expire_date <= after + TOKEN_LIFETIME_SECONDS);
}

#[test]
fn login_of_unknown_user_is_refused() {
    let store = store_with_test_user();
    let login_request =
        LoginRequest { user_name: "Nobody".into(), password: "TestPassword".into() };
    let user = user_by_name(&store, &login_request.user_name);
    assert_eq!(
        login(login_request, "secret".to_string(), user),
        Err(LoginError::UsernameNotFound)
    );
}

#[test]
fn login_with_wrong_password_is_refused() {
    let store = store_with_test_user();
    let login_request =
        LoginRequest { user_name: "UserName".into(), password: "testpassword".into() };
    let user = user_by_name(&store, &login_request.user_name);
    assert_eq!(
        login(login_request, "secret".to_string(), user),
        Err(LoginError::IncorrectPassword)
    );
}

#[test]
fn login_against_malformed_hash_is_an_error() {
    let user = User {
        user_name: "UserName".to_string(),
        password_hash: "not a hash".to_string(),
        roles: vec![UserRole::Admin],
    };
    let login_request =
        LoginRequest { user_name: "UserName".into(), password: "TestPassword".into() };
    assert_eq!(
        check_credentials(&login_request, &Some(user.clone())),
        Err(LoginError::PasswordHashingError(HashingError::MalformedHash))
    );
    assert_eq!(
        login(login_request, "secret".to_string(), Some(user)),
        Err(LoginError::PasswordHashingError(HashingError::MalformedHash))
    );
}

#[test]
fn issued_token_expires_one_day_later() {
    let user = User {
        user_name: "UserName".to_string(),
        password_hash: String::new(),
        roles: vec![UserRole::Moderator, UserRole::NormalUser],
    };
    let secret = "secret".to_string();
    let token = issue_token(&user, 1_000_000, "0123456789abcdef".to_string(), &secret).unwrap();
    let claims = Jwt::decode_jwt_string(token, &secret).unwrap();
    assert_eq!(
        claims,
        Jwt {
            user_name: "UserName".to_string(),
            user_roles: vec![UserRole::Moderator, UserRole::NormalUser],
            token_key: "0123456789abcdef".to_string(),
            token_expire_date: 1_086_400,
        }
    );
}

#[test]
fn issuing_at_the_end_of_time_is_a_clock_error() {
    let user =
        User { user_name: "u".to_string(), password_hash: String::new(), roles: vec![] };
    let secret = "secret".to_string();
    assert_eq!(
        issue_token(&user, i64::MAX, "k".to_string(), &secret),
        Err(LoginError::ClockError)
    );
    assert_eq!(
        issue_token(&user, i64::MAX - 86399, "k".to_string(), &secret),
        Err(LoginError::ClockError)
    );
    let last = issue_token(&user, i64::MAX - 86400, "k".to_string(), &secret).unwrap();
    assert_eq!(Jwt::decode_jwt_string(last, &secret).unwrap().token_expire_date, i64::MAX);
}

#[test]
fn two_logins_give_different_token_keys() {
    let store = store_with_test_user();
    let secret = Secret::generate();
    let mut keys: Vec<String> = Vec::new();
    for _ in 0..2 {
        let login_request =
            LoginRequest { user_name: "UserName".into(), password: "TestPassword".into() };
        let user = user_by_name(&store, &login_request.user_name);
        let token = login(login_request, secret.0.clone(), user).unwrap();
        keys.push(Jwt::decode_jwt_string(token, &secret.0).unwrap().token_key);
    }
    assert_ne!(keys[0], keys[1]);
}

#[test]
fn secret_has_256_letters_and_digits() {
    let secret = Secret::generate();
    assert_eq!(secret.0.chars().count(), 256);
    assert!(secret.0.chars().all(|c| c.is_ascii_alphanumeric()));
    assert_ne!(secret.0, Secret::generate().0);
}

#[test]
fn login_errors_map_to_statuses() {
    assert_eq!(LoginError::IncorrectPassword.status_code(), 401);
    assert_eq!(LoginError::UsernameNotFound.status_code(), 404);
    assert_eq!(
        LoginError::PasswordHashingError(HashingError::MalformedHash).status_code(),
        500
    );
    assert_eq!(LoginError::ClockError.status_code(), 500);
    assert_eq!(LoginError::EncodingError(JwtError::EncodingError).status_code(), 500);
}

#[test]
fn lifetime_of_a_token_can_be_chosen() {
    let user =
        User { user_name: "u".to_string(), password_hash: String::new(), roles: vec![] };
    let secret = "secret".to_string();
    let short = issue_token_for(&user, 1000, 60, "k".to_string(), &secret).unwrap();
    assert_eq!(Jwt::decode_jwt_string(short, &secret).unwrap().token_expire_date, 1060);
    let spent = issue_token_for(&user, 1000, -1, "k".to_string(), &secret).unwrap();
    assert_eq!(Jwt::decode_jwt_string(spent, &secret).unwrap().token_expire_date, 999);
    assert_eq!(
        issue_token_for(&user, i64::MAX, 1, "k".to_string(), &secret),
        Err(LoginError::ClockError)
    );
    assert_eq!(
        issue_token_for(&user, i64::MIN, -1, "k".to_string(), &secret),
        Err(LoginError::ClockError)
    );
}
