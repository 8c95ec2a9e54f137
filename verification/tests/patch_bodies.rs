use k8s_scale_app_rs::patch::{
    patch_params, restart_patch_body, scale_patch_body, FIELD_MANAGER, RESTART_ANNOTATION,
};

fn text(body: Vec<u8>) -> String {
    String::from_utf8(body).unwrap()
}

#[test]
fn scale_body_sets_replicas() {
    assert_eq!(text(scale_patch_body(3)), "{\"spec\":{\"replicas\":3}}");
    assert_eq!(text(scale_patch_body(0)), "{\"spec\":{\"replicas\":0}}");
    assert_eq!(text(scale_patch_body(10)), "{\"spec\":{\"replicas\":10}}");
    assert_eq!(text(scale_patch_body(120)), "{\"spec\":{\"replicas\":120}}");
}

#[test]
fn scale_body_extreme_values() {
    assert_eq!(text(scale_patch_body(i32::MAX)), "{\"spec\":{\"replicas\":2147483647}}");
    assert_eq!(text(scale_patch_body(i32::MIN)), "{\"spec\":{\"replicas\":-2147483648}}");
    assert_eq!(text(scale_patch_body(-3)), "{\"spec\":{\"replicas\":-3}}");
}

#[test]
fn scale_body_is_the_json_of_the_count() {
    for replicas in [0, 1, 7, 42, 1000, 65535] {
        let value: serde_json::Value = serde_json::from_slice(&scale_patch_body(replicas)).unwrap();
        assert_eq!(value["spec"]["replicas"].as_i64(), Some(replicas as i64));
    }
}

#[test]
fn restart_body_stamps_annotation() {
    let body = text(restart_patch_body("2024-05-01T10:20:30.123456789+00:00"));
    assert_eq!(
        body,
        "{\"spec\":{\"template\":{\"metadata\":{\"annotations\":{\"kubectl.kubernetes.io/restartedAt\":\"2024-05-01T10:20:30.123456789+00:00\"}}}}}"
    );
}

#[test]
fn restart_body_escapes_special_characters() {
    let body = restart_patch_body("a\"b\\c\nd\u{1}é");
    let value: serde_json::Value = serde_json::from_slice(&body).unwrap();
    assert_eq!(
        value["spec"]["template"]["metadata"]["annotations"][RESTART_ANNOTATION].as_str(),
        Some("a\"b\\c\nd\u{1}é")
    );
    assert!(text(body).contains("a\\\"b\\\\c\\u000ad\\u0001é"));
}

#[test]
fn patch_params_keep_dry_run_and_field_manager() {
    let options = patch_params(true);
    assert!(options.dry_run);
    assert!(!options.force);
    assert_eq!(options.field_validation, None);
    assert_eq!(options.field_manager, "k8s-scale-app-rs");
    let options = patch_params(false);
    assert!(!options.dry_run);
    assert_eq!(options.field_manager, FIELD_MANAGER);
}
