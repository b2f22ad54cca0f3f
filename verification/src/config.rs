use vstd::prelude::*;
use crate::text::{is_prefix, lemma_trim_end, starts_with, to_string_of, trim_end_char, trim_end_spec};

verus! {

/// Where the library reads music from.
#[derive(Debug, Clone, Copy, PartialEq, Eq, Structural)]
pub enum MusicSource {
    Local,
    Jellyfin,
}

impl Default for MusicSource {
    fn default() -> (r: Self)
        ensures
            r == MusicSource::Local,
    {
        MusicSource::Local
    }
}

/// The key by which the library views order tracks.
#[derive(Debug, Clone, Copy, PartialEq, Eq, Structural)]
pub enum SortOrder {
    Title,
    Artist,
    Album,
}

/// A Jellyfin server the player is connected to.
#[derive(Debug)]
pub struct JellyfinServer {
    pub name: String,
    pub url: String,
    pub access_token: Option<String>,
    pub user_id: Option<String>,
}

impl Clone for JellyfinServer {
    fn clone(&self) -> (r: Self)
        ensures
            r == *self,
    {
        JellyfinServer {
            name: self.name.clone(),
            url: self.url.clone(),
            access_token: match &self.access_token {
                Some(s) => Some(s.clone()),
                None => None,
            },
            user_id: match &self.user_id {
                Some(s) => Some(s.clone()),
                None => None,
            },
        }
    }
}

impl JellyfinServer {
    /// A server entry with no credentials yet; trailing slashes of `url` are
    /// removed so that every path appended to it has exactly one separator.
    pub fn new(name: String, url: String) -> (r: Self)
        ensures
            r.name@ == name@,
            r.url@ == trim_end_spec(url@, '/'),
            r.url@.len() == 0 || r.url@.last() != '/',
            r.access_token is None,
            r.user_id is None,
    {
        proof {
            lemma_trim_end(url@, '/');
        }
        let clean = trim_end_char(url.as_str(), '/');
        JellyfinServer { name, url: clean, access_token: None, user_id: None }
    }
}

impl Default for JellyfinServer {
    fn default() -> (r: Self)
        ensures
            r.name@ == Seq::<char>::empty(),
            r.url@ == Seq::<char>::empty(),
            r.access_token is None,
            r.user_id is None,
    {
        JellyfinServer {
            name: String::new(),
            url: String::new(),
            access_token: None,
            user_id: None,
        }
    }
}

/// Theme id used when the configuration names none.
pub fn default_theme() -> (r: String)
    ensures
        r@ == "default"@,
{
    to_string_of("default")
}

/// Discord presence is on unless the configuration says otherwise.
pub fn default_discord_presence() -> (r: Option<bool>)
    ensures
        r == Some(true),
{
    Some(true)
}

/// Tracks are ordered by title unless the configuration says otherwise.
pub fn default_sort_order() -> (r: SortOrder)
    ensures
        r == SortOrder::Title,
{
    SortOrder::Title
}

/// Why the add-server form refuses its input.
#[derive(Debug, Clone, Copy, PartialEq, Eq, Structural)]
pub enum ServerFormError {
    /// The server URL does not start with `http`.
    InvalidServerUrl,
}

/// The add-server form's check of the server URL: it must start with `http`.
pub fn check_server_url(url: &str) -> (r: Result<(), ServerFormError>)
    ensures
        r is Ok <==> is_prefix("http"@, url@),
        r is Err ==> r == Err::<(), ServerFormError>(ServerFormError::InvalidServerUrl),
{
    if starts_with(url, "http") {
        Ok(())
    } else {
        Err(ServerFormError::InvalidServerUrl)
    }
}

} // verus!
