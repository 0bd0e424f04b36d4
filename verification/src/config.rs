//! The server's settings, from the values of its environment variables.
use vstd::prelude::*;
use crate::text;
use crate::text::{chars_of, parse_u16, string_of};
use crate::hexcode;
use crate::hexcode::hex_decode_text;

verus! {

broadcast use vstd::string::group_string_axioms;

/// The server's settings.
pub struct Config {
    pub database_url: String,
    pub secret: Vec<u8>,
    pub port: u16,
}

/// Why the settings cannot be made.
#[derive(PartialEq, Eq, Structural, Clone, Copy, Debug)]
pub enum ConfigError {
    /// `DATABASE_URL` is not set.
    MissingDatabaseUrl,
    /// `STACKPEDIA_SECRET` is not set.
    MissingSecret,
    /// `STACKPEDIA_SECRET` is not hexadecimal.
    SecretNotHex,
    /// `PORT` is not a port number.
    InvalidPort,
}

impl ConfigError {
    /// The message the server stops with.
    pub fn message(&self) -> (m: String)
        ensures
            m@ == match *self {
                ConfigError::MissingDatabaseUrl => "DATABASE_URL must be set"@,
                ConfigError::MissingSecret => "STACKPEDIA_SECRET must be set"@,
                ConfigError::SecretNotHex => "STACKPEDIA_SECRET must be valid hex"@,
                ConfigError::InvalidPort => "PORT must be a number"@,
            },
    {
        match self {
            ConfigError::MissingDatabaseUrl => string_of("DATABASE_URL must be set"),
            ConfigError::MissingSecret => string_of("STACKPEDIA_SECRET must be set"),
            ConfigError::SecretNotHex => string_of("STACKPEDIA_SECRET must be valid hex"),
            ConfigError::InvalidPort => string_of("PORT must be a number"),
        }
    }
}

/// The text of the port setting: `PORT`, or `3000` when it is not set.
pub open spec fn port_text(port: Option<String>) -> Seq<char> {
    match port {
        Some(p) => p@,
        None => "3000"@,
    }
}

impl Config {
    /// The settings made of the values of `DATABASE_URL`,
    /// `STACKPEDIA_SECRET` (hexadecimal) and `PORT` (3000 when not set),
    /// checked in that order.
    pub fn from_values(
        database_url: Option<String>,
        secret_hex: Option<String>,
        port: Option<String>,
    ) -> (r: Result<Config, ConfigError>)
        ensures
            match database_url {
                None => r == Err::<Config, ConfigError>(ConfigError::MissingDatabaseUrl),
                Some(url) => match secret_hex {
                    None => r == Err::<Config, ConfigError>(ConfigError::MissingSecret),
                    Some(s) => match hexcode::hex_decode(vstd::utf8::encode_utf8(s@)) {
                        None => r == Err::<Config, ConfigError>(ConfigError::SecretNotHex),
                        Some(secret) => match text::parse_u16_text(port_text(port)) {
                            None => r == Err::<Config, ConfigError>(ConfigError::InvalidPort),
                            Some(p) => r matches Ok(c) && c.database_url@ == url@ && c.secret@
                                == secret && c.port == p,
                        },
                    },
                },
            },
    {
        let database_url = match database_url {
            Some(u) => u,
            None => return Err(ConfigError::MissingDatabaseUrl),
        };
        let secret_hex = match secret_hex {
            Some(s) => s,
            None => return Err(ConfigError::MissingSecret),
        };
        let secret = match hex_decode_text(secret_hex.as_str()) {
            Some(v) => v,
            None => return Err(ConfigError::SecretNotHex),
        };
        let port_chars = match &port {
            Some(p) => chars_of(p.as_str()),
            None => chars_of("3000"),
        };
        let port = match parse_u16(&port_chars) {
            Some(p) => p,
            None => return Err(ConfigError::InvalidPort),
        };
        Ok(Config { database_url, secret, port })
    }
}

} // verus!
