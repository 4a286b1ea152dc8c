//! The concrete chat-completion client configuration.
//!
//! A `ChatMLClient` holds the endpoint, the credential and the model
//! identifier, and builds everything of the outbound request that is pure
//! computation: the JSON body and the authorization header value. Opening
//! the network stream itself, and pulling chunks from the response, are
//! the caller's side of the bargain: the caller feeds each chunk to a
//! `StreamDecoder`.

use vstd::prelude::*;
use vstd::string::StringExecFns;

use crate::history::PromptMessage;
use crate::wire::build_request_body;
use crate::wire::request_body_spec;

verus! {

/// Configuration of one chat-completion backend.
#[derive(Debug)]
pub struct ChatMLClient {
    pub server_url: String,
    pub secret_key: String,
    pub model: String,
}

impl Clone for ChatMLClient {
    fn clone(&self) -> (r: Self)
        ensures
            r == *self,
    {
        ChatMLClient {
            server_url: self.server_url.clone(),
            secret_key: self.secret_key.clone(),
            model: self.model.clone(),
        }
    }
}

impl ChatMLClient {
    /// A client with the documented defaults: a local endpoint, a
    /// placeholder credential and a fixed model identifier.
    pub fn new() -> (c: Self)
        ensures
            c.server_url@ == ("http://localhost:8080/v1/chat/completions")@,
            c.secret_key@ == ("no-key")@,
            c.model@ == ("gpt-3.5-turbo")@,
    {
        ChatMLClient {
            server_url: ("http://localhost:8080/v1/chat/completions").to_owned(),
            secret_key: ("no-key").to_owned(),
            model: ("gpt-3.5-turbo").to_owned(),
        }
    }

    /// A client with an explicit endpoint, credential and model.
    pub fn with_config(server_url: String, secret_key: String, model: String) -> (c: Self)
        ensures
            c.server_url == server_url,
            c.secret_key == secret_key,
            c.model == model,
    {
        ChatMLClient { server_url, secret_key, model }
    }

    /// The value of the authorization header the request carries.
    pub fn auth_header_value(&self) -> (r: String)
        ensures
            r@ == ("Bearer ")@ + self.secret_key@,
    {
        let mut s = ("Bearer ").to_owned();
        s.append(self.secret_key.as_str());
        s
    }

    /// The JSON body of the request that opens a completion stream for
    /// the given messages and seed.
    pub fn request_body(&self, messages: &Vec<PromptMessage>, seed: u32) -> (body: Vec<u8>)
        ensures
            body@ == request_body_spec(self.model@, messages@, seed),
    {
        build_request_body(self.model.as_str(), messages, seed)
    }
}

} // verus!
