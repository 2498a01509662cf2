//! Configuration of a locally hosted model server with an OpenAI-compatible
//! API.
use vstd::prelude::*;
use std::time::Duration;
use crate::text::{owned, push_str};
use crate::types::{duration_from_secs, duration_of_secs};

verus! {

/// Where the model server is and how to reach it.
#[derive(Debug)]
pub struct VllmConfig {
    /// Base URL of the server.
    pub base_url: String,
    /// Request timeout.
    pub timeout: Duration,
    /// API key of a secured deployment.
    pub api_key: Option<String>,
}

impl Clone for VllmConfig {
    fn clone(&self) -> (c: Self)
        ensures
            c.base_url@ == self.base_url@,
            c.timeout == self.timeout,
            match (c.api_key, self.api_key) {
                (Some(a), Some(b)) => a@ == b@,
                (None, None) => true,
                _ => false,
            },
    {
        VllmConfig {
            base_url: self.base_url.clone(),
            timeout: self.timeout,
            api_key: match &self.api_key {
                Some(k) => Some(k.clone()),
                None => None,
            },
        }
    }
}

impl VllmConfig {
    /// A configuration for the server at `base_url`, with a five-minute
    /// timeout and no API key.
    pub fn new(base_url: String) -> (c: VllmConfig)
        ensures
            c.base_url@ == base_url@,
            c.timeout == duration_of_secs(300),
            c.api_key is None,
    {
        VllmConfig { base_url, timeout: duration_from_secs(300), api_key: None }
    }

    /// The configuration read from the environment: `VLLM_BASE_URL` (by
    /// default `http://localhost:8000`) and `VLLM_API_KEY`, with a five-minute
    /// timeout. The caller reads the two variables.
    pub fn from_vars(base_url: Option<String>, api_key: Option<String>) -> (c: VllmConfig)
        ensures
            base_url is Some ==> c.base_url@ == base_url->0@,
            base_url is None ==> c.base_url@ == "http://localhost:8000"@,
            c.timeout == duration_of_secs(300),
            match (c.api_key, api_key) {
                (Some(a), Some(b)) => a@ == b@,
                (None, None) => true,
                _ => false,
            },
    {
        let base_url = match base_url {
            Some(u) => u,
            None => owned("http://localhost:8000"),
        };
        VllmConfig { base_url, timeout: duration_from_secs(300), api_key }
    }

    /// Sets the timeout.
    pub fn with_timeout(self, timeout: Duration) -> (c: VllmConfig)
        ensures
            c.base_url@ == self.base_url@,
            c.timeout == timeout,
            c.api_key == self.api_key,
    {
        let mut c = self;
        c.timeout = timeout;
        c
    }

    /// Sets the API key.
    pub fn with_api_key(self, api_key: String) -> (c: VllmConfig)
        ensures
            c.base_url@ == self.base_url@,
            c.timeout == self.timeout,
            c.api_key matches Some(k) && k@ == api_key@,
    {
        let mut c = self;
        c.api_key = Some(api_key);
        c
    }
}

/// Health of the server.
#[derive(Debug, Clone)]
pub struct VllmHealth {
    /// Server status.
    pub status: String,
}

/// A model the server offers.
#[derive(Debug, Clone)]
pub struct ModelInfo {
    /// Model id.
    pub id: String,
    /// Object type (`model`).
    pub object: String,
    /// Creation time.
    pub created: u64,
    /// Owner.
    pub owned_by: String,
}

/// The models the server offers.
#[derive(Debug, Clone)]
pub struct ModelsResponse {
    /// Object type (`list`).
    pub object: String,
    /// Models.
    pub data: Vec<ModelInfo>,
}

/// URL of the server's health endpoint.
pub fn health_url(base_url: &str) -> (r: String)
    ensures
        r@ == base_url@ + "/health"@,
{
    let mut s = owned(base_url);
    push_str(&mut s, "/health");
    s
}

/// URL of the server's model list.
pub fn models_url(base_url: &str) -> (r: String)
    ensures
        r@ == base_url@ + "/v1/models"@,
{
    let mut s = owned(base_url);
    push_str(&mut s, "/v1/models");
    s
}

/// URL of the server's chat completions.
pub fn completions_url(base_url: &str) -> (r: String)
    ensures
        r@ == base_url@ + "/v1/chat/completions"@,
{
    let mut s = owned(base_url);
    push_str(&mut s, "/v1/chat/completions");
    s
}

} // verus!
