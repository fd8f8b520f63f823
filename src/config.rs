use vstd::prelude::*;

verus! {

/// What is needed to reach the cluster.
#[derive(Debug, Clone)]
pub struct CouchbaseConnParams {
    pub connection_url: String,
    pub username: String,
    pub password: String,
}

/// A required connection setting that was not supplied.
#[derive(Debug, Clone, Copy, PartialEq, Eq)]
pub enum MissingSetting {
    ConnectionUrl,
    Username,
    Password,
}

impl CouchbaseConnParams {
    /// Gathers the three required settings; the first one missing, in the
    /// order endpoint, username, password, is reported.
    pub fn from_settings(
        connection_url: Option<String>,
        username: Option<String>,
        password: Option<String>,
    ) -> (r: Result<Self, MissingSetting>)
        ensures
            match (connection_url, username, password) {
                (Some(u), Some(n), Some(p)) => r matches Ok(c) && c.connection_url == u
                    && c.username == n && c.password == p,
                (None, _, _) => r == Err::<Self, MissingSetting>(MissingSetting::ConnectionUrl),
                (Some(_), None, _) => r == Err::<Self, MissingSetting>(MissingSetting::Username),
                (Some(_), Some(_), None) => r == Err::<Self, MissingSetting>(MissingSetting::Password),
            },
    {
        match (connection_url, username, password) {
            (Some(u), Some(n), Some(p)) => Ok(
                CouchbaseConnParams { connection_url: u, username: n, password: p },
            ),
            (None, _, _) => Err(MissingSetting::ConnectionUrl),
            (Some(_), None, _) => Err(MissingSetting::Username),
            (Some(_), Some(_), None) => Err(MissingSetting::Password),
        }
    }
}

/// A reply envelope: a status code, a message key and a payload.
#[derive(Debug, Clone)]
pub struct Message<T> {
    pub status: u32,
    pub message_key: String,
    pub data: T,
}

} // verus!
