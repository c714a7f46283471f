use rvm::update::{plan_update, plan_update_from_tag, UpdateError, UpdatePlanOf};

#[test]
fn update_up_to_date() {
    let body = r#"{"tag_name": "r-v0.5.0", "name": "x"}"#;
    assert!(matches!(
        plan_update(body, "r", "0.5.0", "linux", "x86_64"),
        Ok(UpdatePlanOf::UpToDate)
    ));
}

#[test]
fn update_downloads_new_release() {
    let body = r#"{"tag_name": "v0.6.0"}"#;
    match plan_update(body, "r", "0.5.0", "macos", "aarch64") {
        Ok(UpdatePlanOf::Download { tag, remote, url }) => {
            assert_eq!(tag, "v0.6.0");
            assert_eq!(remote, "0.6.0");
            assert_eq!(
                url,
                "https://github.com/THernandez03/r/releases/download/v0.6.0/r-darwin-arm64"
            );
        }
        other => panic!("unexpected {other:?}"),
    }
}

#[test]
fn update_errors() {
    assert!(matches!(
        plan_update("not json", "r", "0.5.0", "linux", "x86_64"),
        Err(UpdateError::BadJson)
    ));
    assert!(matches!(
        plan_update(r#"{"tag_name": 5}"#, "r", "0.5.0", "linux", "x86_64"),
        Err(UpdateError::NoTagName)
    ));
    assert!(matches!(
        plan_update_from_tag(Some(None), "r", "0.5.0", "linux", "x86_64"),
        Err(UpdateError::NoTagName)
    ));
    assert_eq!(UpdateError::BadJson.message(), "Failed to parse release JSON");
}
