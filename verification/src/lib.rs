pub mod text;
pub mod strmap;
pub mod time;
pub mod pathmatch;
pub mod body_limit;
pub mod random;
pub mod security;
pub mod http;
pub mod cors;
pub mod grpc;
pub mod crypto;
pub mod csrf;
pub mod etag;
pub mod static_files;
pub mod request_id;
pub mod redis;
pub mod auth;
pub mod health;
pub mod cluster;
pub mod session;
pub mod telemetry;
pub mod streaming;
pub mod graphql;
pub mod exception_handler;
pub mod cache;
pub mod openapi;
pub mod guards;
pub mod response;
pub mod request;
pub mod router;
pub mod routing;
pub mod prometheus;
pub mod server;
pub mod template;
pub mod xml;
