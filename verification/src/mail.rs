//! E-mail messages, attachments, SMTP settings and the checks a message
//! passes before it is sent.
use vstd::prelude::*;
use crate::text::{concat, file_name_of, owned, path_file_name};

verus! {

/// Why a message could not be sent. Errors of the transport, address and
/// message-building layers carry that layer's text.
#[derive(Debug)]
pub enum MailError {
    Smtp(String),
    InvalidAddress(String),
    MissingField(String),
    Attachment(String),
    Transport(String),
    Address(String),
    EmailBuilder(String),
}

impl MailError {
    /// The text of the error.
    pub fn message(&self) -> (r: String)
        ensures
            r@ == match self {
                MailError::Smtp(m) => "SMTP error: "@ + m@,
                MailError::InvalidAddress(m) => "Invalid email address: "@ + m@,
                MailError::MissingField(m) => "Missing required field: "@ + m@,
                MailError::Attachment(m) => "Attachment error: "@ + m@,
                MailError::Transport(m) => "Transport error: "@ + m@,
                MailError::Address(m) => "Address error: "@ + m@,
                MailError::EmailBuilder(m) => "Email building error: "@ + m@,
            },
    {
        match self {
            MailError::Smtp(m) => concat("SMTP error: ", m.as_str()),
            MailError::InvalidAddress(m) => concat("Invalid email address: ", m.as_str()),
            MailError::MissingField(m) => concat("Missing required field: ", m.as_str()),
            MailError::Attachment(m) => concat("Attachment error: ", m.as_str()),
            MailError::Transport(m) => concat("Transport error: ", m.as_str()),
            MailError::Address(m) => concat("Address error: ", m.as_str()),
            MailError::EmailBuilder(m) => concat("Email building error: ", m.as_str()),
        }
    }
}

/// Names the media type that `mime_guess` lists first for a path's
/// extension, if it knows the extension.
pub uninterp spec fn guessed_mime(path: Seq<char>) -> Option<Seq<char>>;

/// `mime_guess::from_path(path).first()`, as text.
#[verifier::external_body]
fn guess_mime(path: &str) -> (r: Option<String>)
    ensures
        match r {
            Some(m) => guessed_mime(path@) == Some(m@),
            None => guessed_mime(path@) is None,
        },
{
    mime_guess::from_path(path).first().map(|m| m.to_string())
}

/// A file sent with a message.
#[derive(Debug)]
pub struct Attachment {
    filename: String,
    content: Vec<u8>,
    content_type: Option<String>,
    inline: bool,
    content_id: Option<String>,
}

/// What an attachment holds, as plain values.
pub struct AttachmentView {
    pub filename: Seq<char>,
    pub content: Seq<u8>,
    pub content_type: Option<Seq<char>>,
    pub inline: bool,
    pub content_id: Option<Seq<char>>,
}

pub open spec fn opt_text(o: Option<String>) -> Option<Seq<char>> {
    match o {
        Some(s) => Some(s@),
        None => None,
    }
}

impl View for Attachment {
    type V = AttachmentView;

    closed spec fn view(&self) -> AttachmentView {
        AttachmentView {
            filename: self.filename@,
            content: self.content@,
            content_type: opt_text(self.content_type),
            inline: self.inline,
            content_id: opt_text(self.content_id),
        }
    }
}

impl Attachment {
    /// An empty, non-inline attachment named `filename`, without content
    /// type or content id.
    pub fn new(filename: &str) -> (r: Attachment)
        ensures
            r@.filename == filename@,
            r@.content.len() == 0,
            r@.content_type is None,
            !r@.inline,
            r@.content_id is None,
    {
        Attachment {
            filename: owned(filename),
            content: Vec::new(),
            content_type: None,
            inline: false,
            content_id: None,
        }
    }

    /// The attachment of a file read from `path`: named by the path's file
    /// name (`attachment` when it has none) and typed by its extension.
    pub fn from_file_contents(path: &str, content: Vec<u8>) -> (r: Attachment)
        ensures
            r@.filename == match path_file_name(path@) {
                Some(n) => n,
                None => "attachment"@,
            },
            r@.content == content@,
            r@.content_type == guessed_mime(path@),
            !r@.inline,
            r@.content_id is None,
    {
        let filename = match file_name_of(path) {
            Some(n) => n,
            None => owned("attachment"),
        };
        let content_type = guess_mime(path);
        Attachment { filename, content, content_type, inline: false, content_id: None }
    }

    /// The same attachment with `content`.
    pub fn content(self, content: Vec<u8>) -> (r: Attachment)
        ensures
            r@ == (AttachmentView { content: content@, ..self@ }),
    {
        Attachment { content, ..self }
    }

    /// The same attachment with a content type.
    pub fn content_type(self, content_type: &str) -> (r: Attachment)
        ensures
            r@ == (AttachmentView { content_type: Some(content_type@), ..self@ }),
    {
        Attachment { content_type: Some(owned(content_type)), ..self }
    }

    /// The same attachment, shown inline.
    pub fn inline(self) -> (r: Attachment)
        ensures
            r@ == (AttachmentView { inline: true, ..self@ }),
    {
        Attachment { inline: true, ..self }
    }

    /// The same attachment, inline, with the content id that HTML refers to
    /// as `cid:<id>`.
    pub fn inline_with_cid(self, content_id: &str) -> (r: Attachment)
        ensures
            r@ == (AttachmentView { inline: true, content_id: Some(content_id@), ..self@ }),
    {
        Attachment { inline: true, content_id: Some(owned(content_id)), ..self }
    }

    pub fn filename(&self) -> (r: &str)
        ensures
            r@ == self@.filename,
    {
        self.filename.as_str()
    }

    pub fn content_bytes(&self) -> (r: &Vec<u8>)
        ensures
            r@ == self@.content,
    {
        &self.content
    }

    pub fn content_type_ref(&self) -> (r: Option<&str>)
        ensures
            match r {
                Some(t) => self@.content_type == Some(t@),
                None => self@.content_type is None,
            },
    {
        match &self.content_type {
            Some(t) => Some(t.as_str()),
            None => None,
        }
    }

    pub fn content_id(&self) -> (r: Option<&str>)
        ensures
            match r {
                Some(t) => self@.content_id == Some(t@),
                None => self@.content_id is None,
            },
    {
        match &self.content_id {
            Some(t) => Some(t.as_str()),
            None => None,
        }
    }

    pub fn is_inline(&self) -> (r: bool)
        ensures
            r == self@.inline,
    {
        self.inline
    }
}

/// An e-mail message.
#[derive(Debug)]
pub struct Message {
    from: Option<String>,
    to: Vec<String>,
    cc: Vec<String>,
    bcc: Vec<String>,
    reply_to: Option<String>,
    subject: Option<String>,
    text: Option<String>,
    html: Option<String>,
    attachments: Vec<Attachment>,
}

/// What a message holds, as plain values.
pub struct MessageView {
    pub from: Option<Seq<char>>,
    pub to: Seq<Seq<char>>,
    pub cc: Seq<Seq<char>>,
    pub bcc: Seq<Seq<char>>,
    pub reply_to: Option<Seq<char>>,
    pub subject: Option<Seq<char>>,
    pub text: Option<Seq<char>>,
    pub html: Option<Seq<char>>,
    pub attachments: Seq<AttachmentView>,
}

impl View for Message {
    type V = MessageView;

    closed spec fn view(&self) -> MessageView {
        MessageView {
            from: opt_text(self.from),
            to: crate::text::views(self.to@),
            cc: crate::text::views(self.cc@),
            bcc: crate::text::views(self.bcc@),
            reply_to: opt_text(self.reply_to),
            subject: opt_text(self.subject),
            text: opt_text(self.text),
            html: opt_text(self.html),
            attachments: self.attachments@.map_values(|a: Attachment| a@),
        }
    }
}

/// The first field a message is missing, in the order `from`, `to`,
/// `subject`, body.
pub open spec fn missing_field(m: MessageView) -> Option<Seq<char>> {
    if m.from is None {
        Some("from"@)
    } else if m.to.len() == 0 {
        Some("to"@)
    } else if m.subject is None {
        Some("subject"@)
    } else if m.text is None && m.html is None {
        Some("text or html"@)
    } else {
        None
    }
}

/// A message can be sent exactly when it has a sender, a recipient, a
/// subject and at least one body part, text or HTML; the missing body is
/// reported only when both parts are absent.
pub proof fn lemma_sendable_messages(m: MessageView)
    ensures
        missing_field(m) is None <==> (m.from is Some && m.to.len() > 0 && m.subject is Some && (m.text is Some
            || m.html is Some)),
        missing_field(m) == Some("text or html"@) ==> m.text is None && m.html is None,
{
    reveal_strlit("from");
    reveal_strlit("to");
    reveal_strlit("subject");
    reveal_strlit("text or html");
    assert("from"@.len() != "text or html"@.len());
    assert("to"@.len() != "text or html"@.len());
    assert("subject"@.len() != "text or html"@.len());
}

/// The parts of a message body.
#[derive(Debug, Clone, Copy, PartialEq, Eq, Structural)]
pub enum BodyKind {
    /// Plain text and HTML alternatives.
    PlainAndHtml,
    HtmlOnly,
    PlainOnly,
}

pub open spec fn body_kind_of(m: MessageView) -> Option<BodyKind> {
    if m.text is Some && m.html is Some {
        Some(BodyKind::PlainAndHtml)
    } else if m.html is Some {
        Some(BodyKind::HtmlOnly)
    } else if m.text is Some {
        Some(BodyKind::PlainOnly)
    } else {
        None
    }
}

impl Message {
    /// An empty message.
    pub fn new() -> (r: Message)
        ensures
            r@.from is None,
            r@.to.len() == 0,
            r@.cc.len() == 0,
            r@.bcc.len() == 0,
            r@.reply_to is None,
            r@.subject is None,
            r@.text is None,
            r@.html is None,
            r@.attachments.len() == 0,
    {
        let r = Message {
            from: None,
            to: Vec::new(),
            cc: Vec::new(),
            bcc: Vec::new(),
            reply_to: None,
            subject: None,
            text: None,
            html: None,
            attachments: Vec::new(),
        };
        assert(r@.to =~= Seq::<Seq<char>>::empty());
        r
    }

    /// The same message from `from`.
    pub fn from(self, from: &str) -> (r: Message)
        ensures
            r@ == (MessageView { from: Some(from@), ..self@ }),
    {
        Message { from: Some(owned(from)), ..self }
    }

    /// The same message with one more recipient.
    pub fn to(self, to: &str) -> (r: Message)
        ensures
            r@ == (MessageView { to: self@.to.push(to@), ..self@ }),
    {
        let mut m = self;
        let ghost old_to = m.to@;
        let t = owned(to);
        m.to.push(t);
        proof {
            crate::text::lemma_views_push(old_to, t);
        }
        m
    }

    /// The same message with one more copy recipient.
    pub fn cc(self, cc: &str) -> (r: Message)
        ensures
            r@ == (MessageView { cc: self@.cc.push(cc@), ..self@ }),
    {
        let mut m = self;
        let ghost old_cc = m.cc@;
        let t = owned(cc);
        m.cc.push(t);
        proof {
            crate::text::lemma_views_push(old_cc, t);
        }
        m
    }

    /// The same message with one more blind copy recipient.
    pub fn bcc(self, bcc: &str) -> (r: Message)
        ensures
            r@ == (MessageView { bcc: self@.bcc.push(bcc@), ..self@ }),
    {
        let mut m = self;
        let ghost old_bcc = m.bcc@;
        let t = owned(bcc);
        m.bcc.push(t);
        proof {
            crate::text::lemma_views_push(old_bcc, t);
        }
        m
    }

    pub fn reply_to(self, reply_to: &str) -> (r: Message)
        ensures
            r@ == (MessageView { reply_to: Some(reply_to@), ..self@ }),
    {
        Message { reply_to: Some(owned(reply_to)), ..self }
    }

    pub fn subject(self, subject: &str) -> (r: Message)
        ensures
            r@ == (MessageView { subject: Some(subject@), ..self@ }),
    {
        Message { subject: Some(owned(subject)), ..self }
    }

    /// The same message with a plain text body.
    pub fn text(self, text: &str) -> (r: Message)
        ensures
            r@ == (MessageView { text: Some(text@), ..self@ }),
    {
        Message { text: Some(owned(text)), ..self }
    }

    /// The same message with an HTML body.
    pub fn html(self, html: &str) -> (r: Message)
        ensures
            r@ == (MessageView { html: Some(html@), ..self@ }),
    {
        Message { html: Some(owned(html)), ..self }
    }

    /// The same message with one more attachment.
    pub fn attach(self, attachment: Attachment) -> (r: Message)
        ensures
            r@ == (MessageView { attachments: self@.attachments.push(attachment@), ..self@ }),
    {
        let mut m = self;
        let ghost old_a = m.attachments@;
        m.attachments.push(attachment);
        assert(m.attachments@.map_values(|a: Attachment| a@) =~= old_a.map_values(|a: Attachment| a@).push(
            attachment@,
        ));
        m
    }

    /// Checks that a message can be sent: it names a sender, a recipient, a
    /// subject and a body.
    pub fn validate(&self) -> (r: Result<(), MailError>)
        ensures
            match missing_field(self@) {
                None => r is Ok,
                Some(f) => r matches Err(MailError::MissingField(g)) && g@ == f,
            },
    {
        if self.from.is_none() {
            return Err(MailError::MissingField(owned("from")));
        }
        if self.to.len() == 0 {
            return Err(MailError::MissingField(owned("to")));
        }
        if self.subject.is_none() {
            return Err(MailError::MissingField(owned("subject")));
        }
        if self.text.is_none() && self.html.is_none() {
            return Err(MailError::MissingField(owned("text or html")));
        }
        Ok(())
    }

    /// Which parts the body of this message has, if any.
    pub fn body_kind(&self) -> (r: Option<BodyKind>)
        ensures
            r == body_kind_of(self@),
    {
        if self.text.is_some() && self.html.is_some() {
            Some(BodyKind::PlainAndHtml)
        } else if self.html.is_some() {
            Some(BodyKind::HtmlOnly)
        } else if self.text.is_some() {
            Some(BodyKind::PlainOnly)
        } else {
            None
        }
    }

    pub fn from_address(&self) -> (r: Option<&str>)
        ensures
            match r {
                Some(a) => self@.from == Some(a@),
                None => self@.from is None,
            },
    {
        match &self.from {
            Some(a) => Some(a.as_str()),
            None => None,
        }
    }

    pub fn recipients(&self) -> (r: &Vec<String>)
        ensures
            crate::text::views(r@) == self@.to,
    {
        &self.to
    }

    pub fn cc_recipients(&self) -> (r: &Vec<String>)
        ensures
            crate::text::views(r@) == self@.cc,
    {
        &self.cc
    }

    pub fn bcc_recipients(&self) -> (r: &Vec<String>)
        ensures
            crate::text::views(r@) == self@.bcc,
    {
        &self.bcc
    }

    pub fn reply_to_address(&self) -> (r: Option<&str>)
        ensures
            match r {
                Some(a) => self@.reply_to == Some(a@),
                None => self@.reply_to is None,
            },
    {
        match &self.reply_to {
            Some(a) => Some(a.as_str()),
            None => None,
        }
    }

    pub fn subject_text(&self) -> (r: Option<&str>)
        ensures
            match r {
                Some(a) => self@.subject == Some(a@),
                None => self@.subject is None,
            },
    {
        match &self.subject {
            Some(a) => Some(a.as_str()),
            None => None,
        }
    }

    pub fn text_body(&self) -> (r: Option<&str>)
        ensures
            match r {
                Some(a) => self@.text == Some(a@),
                None => self@.text is None,
            },
    {
        match &self.text {
            Some(a) => Some(a.as_str()),
            None => None,
        }
    }

    pub fn html_body(&self) -> (r: Option<&str>)
        ensures
            match r {
                Some(a) => self@.html == Some(a@),
                None => self@.html is None,
            },
    {
        match &self.html {
            Some(a) => Some(a.as_str()),
            None => None,
        }
    }

    pub fn attachments(&self) -> (r: &Vec<Attachment>)
        ensures
            r@.map_values(|a: Attachment| a@) == self@.attachments,
    {
        &self.attachments
    }
}

impl Default for Message {
    fn default() -> (r: Message)
        ensures
            r@.from is None,
            r@.to.len() == 0,
            r@.subject is None,
            r@.text is None,
            r@.html is None,
            r@.attachments.len() == 0,
    {
        Message::new()
    }
}

/// How to reach an SMTP server.
#[derive(Debug)]
pub struct SmtpConfig {
    pub host: String,
    pub port: u16,
    pub username: Option<String>,
    pub password: Option<String>,
    pub use_tls: bool,
}

impl SmtpConfig {
    /// A server at `host:port`, with TLS and without credentials.
    pub fn new(host: &str, port: u16) -> (r: SmtpConfig)
        ensures
            r.host@ == host@,
            r.port == port,
            r.username is None,
            r.password is None,
            r.use_tls,
    {
        SmtpConfig { host: owned(host), port, username: None, password: None, use_tls: true }
    }

    /// The same settings with credentials.
    pub fn credentials(self, username: &str, password: &str) -> (r: SmtpConfig)
        ensures
            r.host == self.host,
            r.port == self.port,
            opt_text(r.username) == Some(username@),
            opt_text(r.password) == Some(password@),
            r.use_tls == self.use_tls,
    {
        SmtpConfig { username: Some(owned(username)), password: Some(owned(password)), ..self }
    }

    /// The same settings with TLS on or off.
    pub fn use_tls(self, use_tls: bool) -> (r: SmtpConfig)
        ensures
            r.host == self.host,
            r.port == self.port,
            r.username == self.username,
            r.password == self.password,
            r.use_tls == use_tls,
    {
        SmtpConfig { use_tls, ..self }
    }

    /// The credentials to log in with: only when both a user name and a
    /// password are set.
    pub fn login(&self) -> (r: Option<(&str, &str)>)
        ensures
            match r {
                Some((u, p)) => opt_text(self.username) == Some(u@) && opt_text(self.password) == Some(p@),
                None => self.username is None || self.password is None,
            },
    {
        match (&self.username, &self.password) {
            (Some(u), Some(p)) => Some((u.as_str(), p.as_str())),
            _ => None,
        }
    }
}

/// Sends messages through a transport.
#[derive(Debug)]
pub struct Mailer<T> {
    transport: T,
}

impl<T> Mailer<T> {
    pub closed spec fn spec_transport(&self) -> T {
        self.transport
    }

    pub fn new(transport: T) -> (r: Mailer<T>)
        ensures
            r.spec_transport() == transport,
    {
        Mailer { transport }
    }

    /// The transport that messages go through.
    pub fn transport(&self) -> (r: &T)
        ensures
            *r == self.spec_transport(),
    {
        &self.transport
    }
}

} // verus!
