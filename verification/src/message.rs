use vstd::prelude::*;

verus! {

/// A stored secret message.
#[derive(Debug, Clone, PartialEq, Eq)]
pub struct SecretMessage {
    /// The identifier that the counter issued for this message.
    pub id: u64,
    /// The content, kept as opaque text.
    pub encrypted_message: String,
    /// When the message was created.
    pub created_at: u64,
    /// When the message was last changed; absent as long as it never was.
    pub updated_at: Option<u64>,
    /// The key that a reader must present.
    pub secret_key: String,
}

/// What a [`SecretMessage`] holds, as mathematical values.
pub struct MessageView {
    pub id: u64,
    pub encrypted_message: Seq<char>,
    pub created_at: u64,
    pub updated_at: Option<u64>,
    pub secret_key: Seq<char>,
}

impl View for SecretMessage {
    type V = MessageView;

    open spec fn view(&self) -> MessageView {
        MessageView {
            id: self.id,
            encrypted_message: self.encrypted_message@,
            created_at: self.created_at,
            updated_at: self.updated_at,
            secret_key: self.secret_key@,
        }
    }
}

impl Default for SecretMessage {
    fn default() -> (r: SecretMessage)
        ensures
            r@ == (MessageView {
                id: 0,
                encrypted_message: Seq::empty(),
                created_at: 0,
                updated_at: None,
                secret_key: Seq::empty(),
            }),
    {
        SecretMessage {
            id: 0,
            encrypted_message: String::new(),
            created_at: 0,
            updated_at: None,
            secret_key: String::new(),
        }
    }
}

/// What a caller hands in to have a message created.
#[derive(Debug, Clone, PartialEq, Eq)]
pub struct SecretMessagePayload {
    /// The content of the message to create.
    pub encrypted_message: String,
    /// The key that will guard the message.
    pub secret_key: String,
}

/// What a [`SecretMessagePayload`] holds, as mathematical values.
pub struct PayloadView {
    pub encrypted_message: Seq<char>,
    pub secret_key: Seq<char>,
}

impl View for SecretMessagePayload {
    type V = PayloadView;

    open spec fn view(&self) -> PayloadView {
        PayloadView { encrypted_message: self.encrypted_message@, secret_key: self.secret_key@ }
    }
}

impl Default for SecretMessagePayload {
    fn default() -> (r: SecretMessagePayload)
        ensures
            r@ == (PayloadView { encrypted_message: Seq::empty(), secret_key: Seq::empty() }),
    {
        SecretMessagePayload { encrypted_message: String::new(), secret_key: String::new() }
    }
}

} // verus!
