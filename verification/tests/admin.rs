use rand::distributions::Alphanumeric;
use rand::{thread_rng, Rng};
use virt_db::admin::model::{
    option_to_active_value, parse_current_user, ActiveValue, CacheConfigCreateParam, Claims,
    CurrentUser, DataWrapper, IdParam, PageParam, PasswordUpdateParam, SysError,
};
use virt_db::admin::nodes::{node_key, NodeRegistry, NODE_TTL_SECONDS};
use virt_db::admin::password::{
    check_new_password, check_password_change, encode, password_matches, MIN_PASSWORD_LEN,
};

#[test]
fn test_encode() {
    let salt: String = thread_rng()
        .sample_iter(&Alphanumeric)
        .take(30)
        .map(char::from)
        .collect();
    let encoded_password_result = encode("admin123".to_string(), salt.clone());
    println!("salt:{:?},password:{:?}", salt, encoded_password_result);
}

#[test]
fn password_is_the_md5_of_password_and_salt() {
    assert_eq!(
        encode("".to_string(), "".to_string()).unwrap(),
        "d41d8cd98f00b204e9800998ecf8427e"
    );
    assert_eq!(
        encode("a".to_string(), "bc".to_string()).unwrap(),
        "900150983cd24fb0d6963f7d28e17f72"
    );
    assert_eq!(
        encode("ab".to_string(), "c".to_string()).unwrap(),
        "900150983cd24fb0d6963f7d28e17f72"
    );
}

#[test]
fn envelope() {
    let ok = DataWrapper::success(5);
    assert_eq!((ok.code, ok.message.as_str(), ok.success, ok.data), (0, "OK", true, Some(5)));
    let failed = DataWrapper::result(-1, "no".to_string(), "");
    assert_eq!(
        (failed.code, failed.message.as_str(), failed.success, failed.data),
        (-1, "no", false, Some(""))
    );
    let zero = DataWrapper::result(0, "fine".to_string(), 1u8);
    assert!(zero.success);
    assert_eq!(IdParam::new(4).id, 4);
}

#[test]
fn paging() {
    let page = |no: Option<i64>, size: Option<i64>| PageParam {
        page_no: no,
        page_size: size,
    };
    assert_eq!(page(None, None).get_page_no(), 0);
    assert_eq!(page(Some(0), None).get_page_no(), 0);
    assert_eq!(page(Some(1), None).get_page_no(), 0);
    assert_eq!(page(Some(5), None).get_page_no(), 4);
    assert_eq!(page(Some(-1), None).get_page_no(), u64::MAX - 1);
    assert_eq!(page(None, None).get_limit(), 10);
    assert_eq!(page(None, Some(25)).get_limit(), 25);
    assert_eq!(page(None, Some(0)).get_limit(), 0);
    assert_eq!(page(None, Some(-1)).get_limit(), u64::MAX);
    assert_eq!(page(Some(3), Some(10)).get_start_row(), 11);
    assert_eq!(page(Some(2), None).get_start_row(), 1);
    assert_eq!(page(Some(1), Some(1)).get_start_row(), 0);
    assert_eq!(page(Some(4), Some(7)).get_start_row(), 15);
}

#[test]
fn error_body() {
    assert_eq!(
        SysError::BIZ("bad input".to_string()).error_body(),
        "{\"code\": -1,\"message\": \"bad input\",\"success\": false,\"data\": null}"
    );
    assert_eq!(
        SysError::SYSTEM("disk full".to_string()).error_body(),
        "{\"code\": -1,\"message\": \"未知错误\",\"success\": false,\"data\": null}"
    );
}

#[test]
fn current_user_of_a_token() {
    let claims = Claims {
        aud: "virt-db-admin".to_string(),
        subject: CurrentUser {
            user_id: 3,
            user_name: "ann".to_string(),
        },
        exp: 100,
        iat: 0,
    };
    let user = parse_current_user(Ok(claims)).unwrap();
    assert_eq!((user.user_id, user.user_name.as_str()), (3, "ann"));
    match parse_current_user(Err(SysError::BIZ("expired".to_string()))) {
        Err(SysError::BIZ(msg)) => assert_eq!(msg, "expired"),
        other => panic!("{:?}", other),
    }
}

fn update(current: &str, new: &str, confirm: &str) -> PasswordUpdateParam {
    PasswordUpdateParam {
        current_password: current.to_string(),
        new_password: new.to_string(),
        new_password_confirm: confirm.to_string(),
    }
}

fn biz(r: Result<(), SysError>) -> String {
    match r {
        Err(SysError::BIZ(msg)) => msg,
        other => panic!("{:?}", other),
    }
}

#[test]
fn new_password_needs_eight_bytes() {
    assert_eq!(MIN_PASSWORD_LEN, 8);
    assert!(check_new_password(&update("", "12345678", "")).is_ok());
    assert!(check_new_password(&update("", "123456789", "")).is_ok());
    assert_eq!(
        biz(check_new_password(&update("", "1234567", ""))),
        "密码长度过短，至少需要8个字符"
    );
    assert_eq!(
        biz(check_new_password(&update("", "", ""))),
        "密码长度过短，至少需要8个字符"
    );
    // length counts bytes
    assert!(check_new_password(&update("", "密码长", "")).is_ok());
}

#[test]
fn password_change_rules() {
    let salt = "pepper".to_string();
    let stored = encode("old-secret".to_string(), salt.clone()).unwrap();
    assert!(password_matches(&stored, "old-secret".to_string(), salt.clone()));
    assert!(!password_matches(&stored, "old-secret".to_string(), "salt".to_string()));
    assert!(!password_matches(&stored, "other".to_string(), salt.clone()));
    assert!(check_password_change(
        &update("old-secret", "new-secret", "new-secret"),
        &stored,
        salt.clone()
    )
    .is_ok());
    assert_eq!(
        biz(check_password_change(
            &update("old-secret", "new-secret", "new-secrex"),
            &stored,
            salt.clone()
        )),
        "新密码和确认密码不一致"
    );
    assert_eq!(
        biz(check_password_change(
            &update("wrong", "new-secret", "new-secret"),
            &stored,
            salt.clone()
        )),
        "旧密码错误"
    );
    // a confirmation that differs is reported first
    assert_eq!(
        biz(check_password_change(&update("wrong", "a", "b"), &stored, salt)),
        "新密码和确认密码不一致"
    );
}

#[test]
fn registry_keeps_the_nodes_that_reported_of_late() {
    assert_eq!(NODE_TTL_SECONDS, 120);
    assert_eq!(node_key("10.0.0.1", "3307"), "10.0.0.1:3307");
    let mut nodes = NodeRegistry::new();
    nodes.register(node_key("a", "1"), 1000);
    nodes.register(node_key("b", "1"), 1010);
    nodes.register(node_key("c", "1"), 1020);
    assert_eq!(nodes.len(), 3);
    assert_eq!(nodes.expire_at("a:1"), Some(1120));
    assert_eq!(nodes.expire_at("b:1"), Some(1130));
    assert_eq!(nodes.expire_at("d:1"), None);
    // a node that reports again stays once, with a later expiry
    nodes.register(node_key("a", "1"), 1100);
    assert_eq!(nodes.len(), 3);
    assert_eq!(nodes.expire_at("a:1"), Some(1220));
    nodes.retain_alive(1129);
    assert_eq!(nodes.len(), 3);
    nodes.retain_alive(1130);
    assert_eq!(nodes.len(), 2);
    assert_eq!(nodes.expire_at("b:1"), None);
    assert_eq!(nodes.expire_at("c:1"), Some(1140));
    nodes.retain_alive(5000);
    assert_eq!(nodes.len(), 0);
    nodes.register(node_key("z", "9"), i64::MAX - 5);
    assert_eq!(nodes.expire_at("z:9"), Some(i64::MAX));
}

#[test]
fn a_request_assigns_the_fields_that_it_names() {
    assert_eq!(option_to_active_value(Some(3)), ActiveValue::Assigned(3));
    assert_eq!(option_to_active_value::<i32>(None), ActiveValue::NotSet);
    let model = CacheConfigCreateParam {
        id: Some(4),
        cache_name: None,
        sql_template: Some("select ?".to_string()),
        remark: Some(String::new()),
        duration: Some(90),
        enabled: None,
    }
    .to_active_model();
    assert_eq!(model.id, ActiveValue::Assigned(4));
    assert_eq!(model.cache_name, ActiveValue::NotSet);
    assert_eq!(model.sql_template, ActiveValue::Assigned("select ?".to_string()));
    assert_eq!(model.remark, ActiveValue::Assigned(String::new()));
    assert_eq!(model.duration, ActiveValue::Assigned(90));
    assert_eq!(model.enabled, ActiveValue::NotSet);
    assert_eq!(model.created_at, ActiveValue::NotSet);
    assert_eq!(model.updated_at, ActiveValue::NotSet);
    assert_eq!(model.created_by, ActiveValue::NotSet);
    assert_eq!(model.updated_by, ActiveValue::NotSet);
    let empty = CacheConfigCreateParam::default().to_active_model();
    assert_eq!(empty.id, ActiveValue::NotSet);
    assert_eq!(empty.sql_template, ActiveValue::NotSet);
}
