use ipcmanview::auth::{get_auth, AuthParam};

#[test]
fn it_get_auth() {
    let (username, password, params) = (
        "admin".to_string(),
        "123".to_string(),
        AuthParam {
            realm: "Login to a0c50bcd05b2f03d067e530d9bf069af".to_string(),
            random: "1172275829".to_string(),
            encryption: "Default".to_string(),
        },
    );

    assert_eq!(
        "2E9AD6D2DB08E0882F376A622BC76B9A",
        &get_auth(&username, &password, &params)
    )
}

#[test]
fn get_auth_basic_is_base64() {
    let params = AuthParam {
        realm: String::new(),
        random: String::new(),
        encryption: "Basic".to_string(),
    };
    assert_eq!("YWRtaW46MTIz", &get_auth("admin", "123", &params));
}

#[test]
fn get_auth_unknown_mode_passes_password_through() {
    let params = AuthParam {
        realm: "r".to_string(),
        random: "n".to_string(),
        encryption: "OldDigest".to_string(),
    };
    assert_eq!("s3cret", &get_auth("admin", "s3cret", &params));
}

#[test]
fn get_auth_default_depends_on_realm_and_random() {
    let a = AuthParam {
        realm: "realm-one".to_string(),
        random: "42".to_string(),
        encryption: "Default".to_string(),
    };
    let b = AuthParam {
        realm: "realm-two".to_string(),
        random: "42".to_string(),
        encryption: "Default".to_string(),
    };
    let da = get_auth("admin", "123", &a);
    let db = get_auth("admin", "123", &b);
    assert_ne!(da, db);
    assert_eq!(da.len(), 32);
    assert_eq!(db.len(), 32);
}
