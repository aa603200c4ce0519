use entity_cache::request::{
    AuditLogReasonError, DeleteFollowupMessage, DeleteGuildSticker, Method, Route,
    StickerValidationError, StickerValidationErrorType, UpdateGuildSticker,
    UpdateGuildStickerFields,
};

#[test]
fn test_request() {
    let builder = DeleteFollowupMessage::new(1, "token", 2);
    let actual = builder.request();

    let expected = Route::DeleteWebhookMessage {
        message_id: 2,
        thread_id: None,
        token: "token".to_owned(),
        webhook_id: 1,
    };

    assert_eq!(expected, actual.route);
    assert!(!actual.use_authorization_token);
}

#[test]
fn delete_guild_sticker_request() {
    let r = DeleteGuildSticker::new(1, 2).request();
    assert_eq!(r.method, Method::Delete);
    assert_eq!(r.route, Route::DeleteGuildSticker { guild_id: 1, sticker_id: 2 });
    assert!(r.use_authorization_token);
    assert!(r.body.is_none());
}

#[test]
fn update_guild_sticker_request() {
    let r = UpdateGuildSticker::new(1, 2)
        .description("new description")
        .unwrap()
        .name("name")
        .unwrap()
        .tags("a,b")
        .unwrap()
        .reason("cleanup")
        .unwrap()
        .request();
    assert_eq!(r.method, Method::Patch);
    assert_eq!(r.route, Route::UpdateGuildSticker { guild_id: 1, sticker_id: 2 });
    assert_eq!(
        r.body,
        Some(UpdateGuildStickerFields {
            description: Some("new description".to_owned()),
            name: Some("name".to_owned()),
            tags: Some("a,b".to_owned()),
        })
    );
    assert_eq!(r.reason, Some("cleanup".to_owned()));
}

#[test]
fn sticker_field_validation() {
    let e = UpdateGuildSticker::new(1, 2).description("a").err();
    assert_eq!(e, Some(StickerValidationError { kind: StickerValidationErrorType::DescriptionInvalid }));
    let e = UpdateGuildSticker::new(1, 2).name(&"n".repeat(31)).err();
    assert_eq!(e, Some(StickerValidationError { kind: StickerValidationErrorType::NameInvalid }));
    assert!(UpdateGuildSticker::new(1, 2).name(&"n".repeat(30)).is_ok());
    let e = UpdateGuildSticker::new(1, 2).tags(&"t".repeat(201)).err();
    assert_eq!(e, Some(StickerValidationError { kind: StickerValidationErrorType::TagsInvalid }));
    assert!(UpdateGuildSticker::new(1, 2).tags(&"t".repeat(200)).is_ok());
    assert!(UpdateGuildSticker::new(1, 2).description("éé").is_ok());
}

#[test]
fn audit_reason_validation() {
    assert!(UpdateGuildSticker::new(1, 2).reason(&"r".repeat(512)).is_ok());
    let e = UpdateGuildSticker::new(1, 2).reason(&"r".repeat(513)).err();
    assert_eq!(e, Some(AuditLogReasonError { len: 513 }));
}
