//! Uploading images to Cloudinary: the request's address and credentials.
use vstd::prelude::*;
use vstd::utf8::encode_utf8;

verus! {

/// The standard base64 encoding (with padding) of `bytes`.
pub uninterp spec fn base64_of(bytes: Seq<u8>) -> Seq<char>;

/// Relies on `base64::engine::general_purpose::STANDARD.encode`: the
/// standard alphabet with padding, four characters for every three bytes
/// begun. It panics where that length overflows `usize`.
#[verifier::external_body]
fn base64_encode(bytes: &[u8]) -> (r: String)
    requires
        bytes@.len() <= usize::MAX / 2,
    ensures
        r@ == base64_of(bytes@),
        r@.len() == 4 * ((bytes@.len() + 2) / 3),
{
    base64::Engine::encode(&base64::engine::general_purpose::STANDARD, bytes)
}

/// What Cloudinary answers to an upload.
pub struct CloudinaryResponse {
    pub public_id: String,
    pub url: String,
    pub secure_url: String,
}

/// An account on Cloudinary that images are uploaded to.
pub struct CloudinaryService {
    cloud_name: String,
    api_key: String,
    api_secret: String,
    upload_preset: String,
}

impl CloudinaryService {
    pub fn new(cloud_name: String, api_key: String, api_secret: String, upload_preset: String) -> (r:
        Self)
        ensures
            r.cloud_name() == cloud_name@,
            r.api_key() == api_key@,
            r.api_secret() == api_secret@,
            r.upload_preset() == upload_preset@,
    {
        CloudinaryService { cloud_name, api_key, api_secret, upload_preset }
    }

    pub closed spec fn cloud_name(&self) -> Seq<char> {
        self.cloud_name@
    }

    pub closed spec fn api_key(&self) -> Seq<char> {
        self.api_key@
    }

    pub closed spec fn api_secret(&self) -> Seq<char> {
        self.api_secret@
    }

    pub closed spec fn upload_preset(&self) -> Seq<char> {
        self.upload_preset@
    }

    /// The address that images of this account are posted to.
    pub fn upload_url(&self) -> (r: String)
        ensures
            r@ == "https://api.cloudinary.com/v1_1/"@ + self.cloud_name() + "/image/upload"@,
    {
        let mut s = String::from_str("https://api.cloudinary.com/v1_1/");
        s.append(self.cloud_name.as_str());
        s.append("/image/upload");
        s
    }

    /// The upload preset named in every upload.
    pub fn preset(&self) -> (r: &String)
        ensures
            r@ == self.upload_preset(),
    {
        &self.upload_preset
    }

    /// The value of the `Authorization` header of an upload: basic
    /// authentication with the account's key and secret. `None` only where
    /// the credentials are too long to encode.
    pub fn authorization_header(&self) -> (r: Option<String>)
        ensures
            ({
                let credentials = encode_utf8(self.api_key() + ":"@ + self.api_secret());
                &&& credentials.len() <= usize::MAX / 2 ==> (r matches Some(h) && h@ == "Basic "@
                    + base64_of(credentials))
                &&& credentials.len() > usize::MAX / 2 ==> r is None
            }),
    {
        let mut credentials = self.api_key.clone();
        credentials.append(":");
        credentials.append(self.api_secret.as_str());
        let bytes = credentials.as_str().as_bytes();
        assert(credentials@ == self.api_key() + ":"@ + self.api_secret());
        if bytes.len() > usize::MAX / 2 {
            return None;
        }
        let encoded = base64_encode(bytes);
        let mut s = String::from_str("Basic ");
        s.append(encoded.as_str());
        Some(s)
    }
}

} // verus!
