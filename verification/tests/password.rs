use weekend_at_joes::auth::password::{accept_new_hash, is_acceptable_hash};
use weekend_at_joes::auth::{hash_password, verify_hash, HashingError};

const KNOWN_HASH: &str =
    "$rscrypt$0$BAEB$AAECAwQFBgcICQoLDA0ODw==$ljsa4DS5/0P2yfkhPzZvk5q6dfpggwCp4J4/3sjGsGc=$";

fn acceptable(hash: &str) -> bool {
    is_acceptable_hash(&hash.chars().collect())
}

#[test]
fn hash_verifies_against_its_password() {
    for password in ["", "12345", "TestPassword", "pass word with \u{e9}\u{1F600} and $"] {
        let hash = hash_password(password).unwrap();
        assert_eq!(verify_hash(password, &hash), Ok(true));
    }
}

#[test]
fn hash_does_not_verify_against_another_password() {
    let hash = hash_password("12345").unwrap();
    assert_eq!(verify_hash("12346", &hash), Ok(false));
    assert_eq!(verify_hash("", &hash), Ok(false));
}

#[test]
fn hash_holds_the_format_the_cost_and_a_fresh_salt() {
    let first = hash_password("12345").unwrap();
    let second = hash_password("12345").unwrap();
    assert!(first.starts_with("$rscrypt$0$DAgB$"));
    assert!(first.ends_with("$"));
    assert_eq!(first.len(), 86);
    assert_ne!(first, "12345");
    assert_ne!(first, second);
    assert!(acceptable(&first));
}

#[test]
fn known_hash_is_checked() {
    assert!(acceptable(KNOWN_HASH));
    assert_eq!(verify_hash("12345", KNOWN_HASH), Ok(true));
    assert_eq!(verify_hash("12344", KNOWN_HASH), Ok(false));
}

#[test]
fn malformed_hashes_are_errors() {
    for hash in [
        "",
        "12345",
        "$rscrypt$0$",
        "$rscrypt$0$BAEB$AAECAwQFBgcICQoLDA0ODw==$$",
        "$rscrypt$0$BAEB$$$",
        "$rscrypt$0$BAEB$AAECAwQFBgcICQoLDA0ODw==$ljsa$x",
        "$rscrypt$0$BAEB$AAECAwQFBgcICQoLDA0ODw==$ljsa4DS5",
        "$rscrypt$0$BAEB$AAECAwQFBgcICQoLDA0ODw==$=jsa$",
        "$rscrypt$0$BAEB$AAECAwQFBgcICQoLDA0ODw==$\nljsa$",
        "$rscrypt$0$BAEB$AAEC$ljsa$more$",
        "$rscrypt$1$BAEB$AAECAwQFBgcICQoLDA0ODw==$ljsa$",
        "$rscrypt$0$BAE$AAECAwQFBgcICQoLDA0ODw==$ljsa$",
        "$rscrypt$0$BA=B$AAECAwQFBgcICQoLDA0ODw==$ljsa$",
        "$pbkdf2$0$BAEB$AAECAwQFBgcICQoLDA0ODw==$ljsa$",
        "x$rscrypt$0$BAEB$AAECAwQFBgcICQoLDA0ODw==$ljsa$",
    ] {
        assert!(!acceptable(hash), "{}", hash);
        assert_eq!(verify_hash("12345", hash), Err(HashingError::MalformedHash), "{}", hash);
    }
}

#[test]
fn unsupported_costs_are_errors() {
    for cost in ["FAgB", "DgAB", "EQgB", "EBEB", "AAgB", "DggA", "DggR", "EAEB"] {
        let hash = format!("$rscrypt$0${}$AAECAwQFBgcICQoLDA0ODw==$ljsa$", cost);
        assert!(!acceptable(&hash), "{}", hash);
        assert_eq!(verify_hash("12345", &hash), Err(HashingError::MalformedHash), "{}", hash);
    }
}

#[test]
fn supported_costs_are_accepted() {
    for cost in ["DggB", "BAEB", "DwEB", "EBAQ"] {
        let hash = format!("$rscrypt$0${}$AAECAwQFBgcICQoLDA0ODw==$ljsa$", cost);
        assert!(acceptable(&hash), "{}", hash);
    }
}

#[test]
fn acceptable_form_that_the_check_cannot_read_is_an_error() {
    let bad_salt = "$rscrypt$0$BAEB$!!!!$ljsa$";
    assert!(acceptable(bad_salt));
    assert_eq!(verify_hash("12345", bad_salt), Err(HashingError::MalformedHash));
    let bad_key = "$rscrypt$0$BAEB$AAECAwQFBgcICQoLDA0ODw==$l$";
    assert!(acceptable(bad_key));
    assert_eq!(verify_hash("12345", bad_key), Err(HashingError::MalformedHash));
}

#[test]
fn overlong_hash_is_an_error() {
    let long = format!("$rscrypt$0$BAEB$AAECAwQFBgcICQoLDA0ODw==${}$", "A".repeat(1024));
    assert!(!acceptable(&long));
    assert_eq!(verify_hash("12345", &long), Err(HashingError::MalformedHash));
    let fits = format!("$rscrypt$0$BAEB$AAECAwQFBgcICQoLDA0ODw==${}$", "A".repeat(982));
    assert_eq!(fits.len(), 1024);
    assert!(acceptable(&fits));
    assert_eq!(verify_hash("12345", &fits), Ok(false));
}

#[test]
fn short_key_of_acceptable_form_does_not_match() {
    let hash = "$rscrypt$0$BAEB$AAECAwQFBgcICQoLDA0ODw==$ljsa$";
    assert_eq!(verify_hash("12345", hash), Ok(true));
    assert_eq!(verify_hash("other", hash), Ok(false));
}

#[test]
fn new_hash_is_handed_out_only_in_the_right_form_and_at_the_right_cost() {
    let at_cost = "$rscrypt$0$DAgB$AAECAwQFBgcICQoLDA0ODw==$ljsa4DS5/0P2yfkhPzZvk5q6dfpggwCp4J4/3sjGsGc=$";
    assert_eq!(accept_new_hash(at_cost.to_string()), Ok(at_cost.to_string()));
    assert_eq!(accept_new_hash(KNOWN_HASH.to_string()), Err(HashingError::HashingFailed));
    assert_eq!(
        accept_new_hash("$rscrypt$0$DggB$AAEC$ljsa$".to_string()),
        Err(HashingError::HashingFailed)
    );
    assert_eq!(accept_new_hash("$rscrypt$0$DAgB$AAEC$$".to_string()), Err(HashingError::HashingFailed));
    assert_eq!(accept_new_hash("12345".to_string()), Err(HashingError::HashingFailed));
    assert_eq!(accept_new_hash(String::new()), Err(HashingError::HashingFailed));
    let made = hash_password("12345").unwrap();
    assert_eq!(accept_new_hash(made.clone()), Ok(made));
}
