use oxidite::graphql::{Context, MutationRoot, QueryRoot, ResolverExtension, ResolverRegistry};
use oxidite::mail::{Attachment, BodyKind, MailError, Message, SmtpConfig};

struct Noop;
impl ResolverExtension for Noop {}

#[test]
fn extension_lifecycle() {
    let mut ctx: Context<String> = Context::new();
    ctx.insert_extension("request_id".to_string(), "abc-123".to_string());
    assert!(ctx.contains_extension("request_id"));
    assert_eq!(ctx.get_extension("request_id").map(String::as_str), Some("abc-123"));
    ctx.remove_extension("request_id");
    assert!(!ctx.contains_extension("request_id"));
}

#[test]
fn registry_registers_extensions() {
    let mut registry = ResolverRegistry::new();
    assert!(registry.is_empty());
    registry.register(Noop);
    assert_eq!(registry.len(), 1);

    let ctx: Context<String> = Context::new();
    registry.notify_before("{ healthCheck }", &ctx);
    registry.notify_after("{ healthCheck }", &ctx);
}

#[test]
fn extension_insert_replaces_and_keeps_others() {
    let mut ctx: Context<u32> = Context::new();
    ctx.insert_extension("a".to_string(), 1);
    ctx.insert_extension("b".to_string(), 2);
    ctx.insert_extension("a".to_string(), 3);
    assert_eq!(ctx.get_extension("a"), Some(&3));
    assert_eq!(ctx.get_extension("b"), Some(&2));
    ctx.remove_extension("a");
    assert_eq!(ctx.get_extension("a"), None);
    assert_eq!(ctx.get_extension("b"), Some(&2));
    ctx.remove_extension("missing");
    assert_eq!(ctx.get_extension("b"), Some(&2));
}

#[test]
fn roots_answer() {
    assert_eq!(QueryRoot::api_version(), "1.0");
    assert!(QueryRoot::health_check());
    assert_eq!(MutationRoot::add_todo("milk"), "Added todo: milk");
}

#[test]
fn inline_with_cid_sets_expected_fields() {
    let attachment = Attachment::new("logo.png").inline_with_cid("logo-1");
    assert!(attachment.is_inline());
    assert_eq!(attachment.content_id(), Some("logo-1"));
    assert_eq!(attachment.filename(), "logo.png");
}

#[test]
fn attachment_from_file_contents_guesses_type() {
    let a = Attachment::from_file_contents("/tmp/report.pdf", vec![1, 2]);
    assert_eq!(a.filename(), "report.pdf");
    assert_eq!(a.content_type_ref(), Some("application/pdf"));
    assert_eq!(a.content_bytes(), &vec![1, 2]);
    assert!(!a.is_inline());
    let unknown = Attachment::from_file_contents("data.unknownext", vec![]);
    assert_eq!(unknown.content_type_ref(), None);
}

#[test]
fn message_validation_names_missing_field() {
    let m = Message::new();
    assert!(matches!(m.validate(), Err(MailError::MissingField(f)) if f == "from"));
    let m = Message::new().from("a@example.com");
    assert!(matches!(m.validate(), Err(MailError::MissingField(f)) if f == "to"));
    let m = Message::new().from("a@example.com").to("b@example.com");
    assert!(matches!(m.validate(), Err(MailError::MissingField(f)) if f == "subject"));
    let m = Message::new().from("a@example.com").to("b@example.com").subject("hi");
    assert!(matches!(m.validate(), Err(MailError::MissingField(f)) if f == "text or html"));
    let m = m.text("body");
    assert!(m.validate().is_ok());
    assert_eq!(m.body_kind(), Some(BodyKind::PlainOnly));
    let m = m.html("<p>body</p>");
    assert_eq!(m.body_kind(), Some(BodyKind::PlainAndHtml));
    assert_eq!(m.recipients(), &vec!["b@example.com".to_string()]);
    assert_eq!(m.subject_text(), Some("hi"));
}

#[test]
fn mail_error_messages() {
    assert_eq!(
        MailError::MissingField("to".to_string()).message(),
        "Missing required field: to"
    );
    assert_eq!(MailError::Smtp("down".to_string()).message(), "SMTP error: down");
}

#[test]
fn smtp_config_builders() {
    let c = SmtpConfig::new("smtp.example.com", 587);
    assert!(c.use_tls);
    assert_eq!(c.login(), None);
    let c = c.credentials("user", "pass").use_tls(false);
    assert!(!c.use_tls);
    assert_eq!(c.login(), Some(("user", "pass")));
    assert_eq!(c.host, "smtp.example.com");
    assert_eq!(c.port, 587);
}
