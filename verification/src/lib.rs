//! A minimal single-shot request dispatcher: it frames one request out of the
//! text read from a connection, decodes a JSON envelope naming a method and
//! parameters, routes the method against a model registry and a session store,
//! and produces one framed JSON response.

pub mod text;
pub mod envelope;
pub mod framer;
pub mod codec;
pub mod registry;
pub mod store;
pub mod server;
