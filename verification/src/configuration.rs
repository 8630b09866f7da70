//! The settings that decide how the server behaves.

use vstd::prelude::*;

verus! {

/// Authentication schemes supported by PostgreSQL.
#[derive(Debug, Clone, Copy, PartialEq, Eq, Structural)]
pub enum AuthenticationType {
    /// Server requires no password
    Trust,
    /// Server requires a plain text password
    AuthenticationCleartextPassword,
    /// Server requires an MD5 password
    AuthenticationMD5Password,
    /// Server performs a SASL handshake
    AuthenticationSASL,
}

/// An internet address, version 4 or version 6.
#[derive(Debug, Clone, Copy, PartialEq, Eq, Structural)]
pub enum IpAddress {
    /// The four octets of a version 4 address.
    V4(u8, u8, u8, u8),
    /// The eight segments of a version 6 address.
    V6(u16, u16, u16, u16, u16, u16, u16, u16),
}

/// The address and port that a server listens on.
#[derive(Debug, Clone, Copy, PartialEq, Eq, Structural)]
pub struct HostAddr {
    pub ip: IpAddress,
    pub port: u16,
}

/// Configuration data used to define the behaviour of the server.
#[derive(Debug, Clone)]
pub struct Configuration {
    user: String,
    password: Option<String>,
    dbname: Option<String>,
    hostaddr: HostAddr,
    authentication_type: AuthenticationType,
}

/// What a [`Configuration`] holds, with its texts as sequences of characters.
pub struct ConfigurationView {
    pub user: Seq<char>,
    pub password: Option<Seq<char>>,
    pub dbname: Option<Seq<char>>,
    pub hostaddr: HostAddr,
    pub authentication_type: AuthenticationType,
}

/// The text that an optional string holds, if any.
pub open spec fn optional_text(s: Option<String>) -> Option<Seq<char>> {
    match s {
        Some(s) => Some(s@),
        None => None,
    }
}

impl View for Configuration {
    type V = ConfigurationView;

    closed spec fn view(&self) -> ConfigurationView {
        ConfigurationView {
            user: self.user@,
            password: optional_text(self.password),
            dbname: optional_text(self.dbname),
            hostaddr: self.hostaddr,
            authentication_type: self.authentication_type,
        }
    }
}

impl Configuration {
    /// Creates a configuration object with user supplied values.
    /// * `user` - Database username.
    /// * `password` - Database password.
    /// * `dbname` - Database the client will connect to.
    /// * `hostaddr` - Socket the backend will listen in.
    /// * `authentication_type` - The type of authentication the backend will perform.
    pub fn new(
        user: String,
        password: Option<String>,
        dbname: Option<String>,
        hostaddr: HostAddr,
        authentication_type: AuthenticationType,
    ) -> (configuration: Self)
        ensures
            configuration@ == (ConfigurationView {
                user: user@,
                password: optional_text(password),
                dbname: optional_text(dbname),
                hostaddr,
                authentication_type,
            }),
    {
        Configuration { user, password, dbname, hostaddr, authentication_type }
    }

    /// Database username.
    pub fn user(self) -> (user: String)
        ensures
            user@ == self@.user,
    {
        self.user
    }

    /// Database password.
    pub fn password(self) -> (password: Option<String>)
        ensures
            optional_text(password) == self@.password,
    {
        self.password
    }

    /// Database the client will connect to.
    pub fn dbname(self) -> (dbname: Option<String>)
        ensures
            optional_text(dbname) == self@.dbname,
    {
        self.dbname
    }

    /// Socket the backend will listen in.
    pub fn hostaddr(self) -> (hostaddr: HostAddr)
        ensures
            hostaddr == self@.hostaddr,
    {
        self.hostaddr
    }

    /// The type of authentication the backend will perform.
    pub fn authentication_type(self) -> (authentication_type: AuthenticationType)
        ensures
            authentication_type == self@.authentication_type,
    {
        self.authentication_type
    }

    /// The configured password, read in place.
    pub fn expected_password(&self) -> (password: Option<&String>)
        ensures
            match password {
                Some(p) => self@.password == Some(p@),
                None => self@.password is None,
            },
    {
        self.password.as_ref()
    }

    /// The configured scheme, read in place.
    pub fn scheme(&self) -> (authentication_type: AuthenticationType)
        ensures
            authentication_type == self@.authentication_type,
    {
        self.authentication_type
    }
}

impl Default for Configuration {
    /// Creates a configuration object with default settings: the user
    /// `postgres` without a password, on the local host's port 5432, trusted.
    fn default() -> (configuration: Self)
        ensures
            configuration@ == (ConfigurationView {
                user: "postgres"@,
                password: None,
                dbname: None,
                hostaddr: HostAddr { ip: IpAddress::V4(127, 0, 0, 1), port: 5432 },
                authentication_type: AuthenticationType::Trust,
            }),
    {
        Configuration {
            user: "postgres".to_owned(),
            password: None,
            dbname: None,
            hostaddr: HostAddr { ip: IpAddress::V4(127, 0, 0, 1), port: 5432 },
            authentication_type: AuthenticationType::Trust,
        }
    }
}

} // verus!
