use vstd::prelude::*;

verus! {

/// The kind of a message: plain text, a voice recording, or another media file.
/// Every kind but `Text` carries a media reference.
#[derive(Clone, Copy, Debug, PartialEq, Eq, Structural)]
pub enum MessageType {
    Text,
    Audio,
    Media,
}

impl MessageType {
    pub open spec fn is_media(self) -> bool {
        self != MessageType::Text
    }
}

/// Credentials sent to log in or to register.
pub struct LoginRequest {
    pub username: String,
    pub password: String,
}

/// What a session token asserts: the user it belongs to and when it expires
/// (seconds since the Unix epoch).
#[derive(Clone, Copy, Debug, PartialEq, Eq, Structural)]
pub struct Claims {
    pub sub: i32,
    pub exp: usize,
}

/// How long a session token stays valid, in seconds.
pub const TOKEN_LIFETIME_SECS: u64 = 86400;

impl Claims {
    /// The claims of a token issued to `user_id` at `now` (seconds since the
    /// epoch); `None` where the expiry does not fit a `usize`.
    pub fn for_user(user_id: i32, now: i64) -> (r: Option<Claims>)
        ensures
            r is Some <==> 0 <= now && now + TOKEN_LIFETIME_SECS <= usize::MAX,
            match r {
                Some(c) => c.sub == user_id && c.exp == now + TOKEN_LIFETIME_SECS,
                None => true,
            },
    {
        if now < 0 {
            return None;
        }
        let n = now as u64;
        if n > u64::MAX - TOKEN_LIFETIME_SECS {
            return None;
        }
        let e = n + TOKEN_LIFETIME_SECS;
        if e as u128 > usize::MAX as u128 {
            return None;
        }
        Some(Claims { sub: user_id, exp: e as usize })
    }
}

/// A user as the account store returns it. `created_at` is in microseconds
/// since the Unix epoch.
pub struct User {
    pub id: i32,
    pub username: String,
    pub password: String,
    pub created_at: i64,
}

/// A user as others may see it: no password.
pub struct UserResponse {
    pub id: i32,
    pub username: String,
    pub created_at: i64,
}

impl User {
    pub fn into_response(self) -> (r: UserResponse)
        ensures
            r.id == self.id,
            r.username == self.username,
            r.created_at == self.created_at,
    {
        UserResponse { id: self.id, username: self.username, created_at: self.created_at }
    }
}

/// The mathematical value of a stored message.
pub struct MessageView {
    pub id: int,
    pub from_user_id: int,
    pub to_user_id: int,
    pub content: Seq<char>,
    pub message_type: MessageType,
    pub file_path: Option<Seq<char>>,
    pub created_at: int,
}

/// A stored message. `id` and `created_at` (microseconds since the Unix epoch)
/// are assigned by the store, never by the sender.
pub struct Message {
    pub id: i32,
    pub from_user_id: i32,
    pub to_user_id: i32,
    pub content: String,
    pub message_type: MessageType,
    pub file_path: Option<String>,
    pub created_at: i64,
}

pub open spec fn opt_view(o: Option<String>) -> Option<Seq<char>> {
    match o {
        Some(s) => Some(s@),
        None => None,
    }
}

pub fn copy_path(p: &Option<String>) -> (r: Option<String>)
    ensures
        r == *p,
{
    match p {
        Some(s) => Some(s.clone()),
        None => None,
    }
}

impl View for Message {
    type V = MessageView;

    open spec fn view(&self) -> MessageView {
        MessageView {
            id: self.id as int,
            from_user_id: self.from_user_id as int,
            to_user_id: self.to_user_id as int,
            content: self.content@,
            message_type: self.message_type,
            file_path: opt_view(self.file_path),
            created_at: self.created_at as int,
        }
    }
}

impl Clone for Message {
    fn clone(&self) -> (r: Message)
        ensures
            r == *self,
    {
        Message {
            id: self.id,
            from_user_id: self.from_user_id,
            to_user_id: self.to_user_id,
            content: self.content.clone(),
            message_type: self.message_type,
            file_path: copy_path(&self.file_path),
            created_at: self.created_at,
        }
    }
}

/// A message as a client submits it.
pub struct MessageRequest {
    pub from_user_id: i32,
    pub to_user_id: i32,
    pub content: String,
    pub message_type: MessageType,
    pub file_path: Option<String>,
}

/// A message as it is pushed over a live connection.
pub struct WebSocketMessage {
    pub message_type: MessageType,
    pub content: String,
    pub from_user_id: i32,
    pub to_user_id: i32,
    pub file_path: Option<String>,
}

impl WebSocketMessage {
    /// The push form of a stored message.
    pub fn from_message(m: &Message) -> (r: WebSocketMessage)
        ensures
            r.message_type == m.message_type,
            r.content == m.content,
            r.from_user_id == m.from_user_id,
            r.to_user_id == m.to_user_id,
            r.file_path == m.file_path,
    {
        WebSocketMessage {
            message_type: m.message_type,
            content: m.content.clone(),
            from_user_id: m.from_user_id,
            to_user_id: m.to_user_id,
            file_path: copy_path(&m.file_path),
        }
    }

    /// The request that sends this message.
    pub fn into_request(self) -> (r: MessageRequest)
        ensures
            r.message_type == self.message_type,
            r.content == self.content,
            r.from_user_id == self.from_user_id,
            r.to_user_id == self.to_user_id,
            r.file_path == self.file_path,
    {
        MessageRequest {
            from_user_id: self.from_user_id,
            to_user_id: self.to_user_id,
            content: self.content,
            message_type: self.message_type,
            file_path: self.file_path,
        }
    }
}

} // verus!
