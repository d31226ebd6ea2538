use vstd::prelude::*;

verus! {

/// What a client asked for, and from where.
pub struct Request {
    pub request_type: RequestType,
    /// The peer's socket address, as `host:port`.
    pub remote_address: String,
}

/// The three kinds of contact a client can make.
pub enum RequestType {
    /// A login attempt: the player's name and formatted UUID.
    Join(Sample),
    /// A status query in the current protocol.
    ModernPing(ServerListPingRequest),
    /// A status query in the legacy protocol.
    LegacyPing(ServerListPingRequest),
}

/// The fields of a status query.
#[derive(Debug, Clone)]
pub struct ServerListPingRequest {
    pub protocol_version: i32,
    pub server_address: String,
    pub server_port: u16,
}

/// What the server reports about itself in a status reply.
pub struct ServerListPingResponse {
    pub version: Version,
    pub players: Players,
    pub description: Description,
    /// A `data:image/png;base64,...` URI, where the server has an icon.
    pub favicon: Option<String>,
    pub enforces_secure_chat: bool,
    pub previews_chat: bool,
}

pub struct Version {
    pub name: String,
    pub protocol: i32,
}

pub struct Players {
    pub max: i32,
    pub online: i32,
    pub sample: Vec<Sample>,
}

/// A player: a name and a UUID in text form.
#[derive(Debug, Clone)]
pub struct Sample {
    pub name: String,
    pub id: String,
}

pub struct Description {
    pub text: String,
}

} // verus!
