pub mod connections;
pub mod filewrapper;
pub mod head;
pub mod request;
pub mod response;
pub mod server;
pub mod startresponse;
pub mod text;
pub mod transport;
