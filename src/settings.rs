//! The service's configuration, as plain values.
use vstd::prelude::*;

verus! {

pub struct DatabaseSettings {
    pub url: String,
    pub namespace: String,
    pub database: String,
}

pub struct JwtSettings {
    pub secret: String,
    pub expiration_hours: i64,
}

pub struct CloudinarySettings {
    pub cloud_name: String,
    pub api_key: String,
    pub api_secret: String,
    pub upload_preset: String,
}

pub struct MLModelSettings {
    pub model_path: String,
    pub python_path: String,
}

pub struct ServerSettings {
    pub host: String,
    pub port: u16,
}

pub struct Settings {
    pub database: DatabaseSettings,
    pub jwt: JwtSettings,
    pub cloudinary: CloudinarySettings,
    pub ml_model: MLModelSettings,
    pub server: ServerSettings,
}

} // verus!
