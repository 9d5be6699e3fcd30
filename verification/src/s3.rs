//! Object storage settings and the naming of uploaded files.

use vstd::prelude::*;

use crate::text::{chars_of, ends_with_chars, ends_with_text};

verus! {

#[verifier::external_type_specification]
#[verifier::external_body]
pub struct ExS3Client(aws_sdk_s3::Client);

/// Where finished files are uploaded.
pub struct S3Config {
    pub endpoint: String,
    pub bucket: String,
    pub access_key: String,
    pub secret_key: String,
    pub region: String,
    pub public_url: String,
}

/// Region used when none is configured.
pub open spec fn default_region() -> Seq<char> {
    "us-east-1"@
}

impl S3Config {
    /// Builds the settings from configured values: the endpoint, bucket,
    /// keys and public URL are required, the region defaults to `us-east-1`.
    pub fn from_values(
        endpoint: Option<String>,
        bucket: Option<String>,
        access_key: Option<String>,
        secret_key: Option<String>,
        region: Option<String>,
        public_url: Option<String>,
    ) -> (r: Option<Self>)
        ensures
            r is Some <==> (endpoint is Some && bucket is Some && access_key is Some
                && secret_key is Some && public_url is Some),
            r matches Some(c) ==> (Some(c.endpoint) == endpoint && Some(c.bucket) == bucket
                && Some(c.access_key) == access_key && Some(c.secret_key) == secret_key
                && Some(c.public_url) == public_url && c.region@ == (match region {
                Some(g) => g@,
                None => default_region(),
            })),
    {
        let endpoint = match endpoint {
            Some(v) => v,
            None => {
                return None;
            },
        };
        let bucket = match bucket {
            Some(v) => v,
            None => {
                return None;
            },
        };
        let access_key = match access_key {
            Some(v) => v,
            None => {
                return None;
            },
        };
        let secret_key = match secret_key {
            Some(v) => v,
            None => {
                return None;
            },
        };
        let region = match region {
            Some(v) => v,
            None => String::from_str("us-east-1"),
        };
        let public_url = match public_url {
            Some(v) => v,
            None => {
                return None;
            },
        };
        Some(S3Config { endpoint, bucket, access_key, secret_key, region, public_url })
    }
}

/// Content type an object is uploaded with, judged by its key.
pub open spec fn content_type_text(key: Seq<char>) -> Seq<char> {
    if ends_with_text(key, ".mp4"@) {
        "video/mp4"@
    } else if ends_with_text(key, ".m4a"@) {
        "audio/mp4"@
    } else {
        "application/octet-stream"@
    }
}

/// A connection to object storage with the bucket and public address files
/// are uploaded to.
pub struct S3Service {
    pub client: aws_sdk_s3::Client,
    pub bucket: String,
    pub public_url: String,
}

impl S3Service {
    /// A service for the configured bucket, over an established client.
    pub fn with_client(client: aws_sdk_s3::Client, config: &S3Config) -> (r: Self)
        ensures
            r.bucket == config.bucket,
            r.public_url == config.public_url,
    {
        S3Service { client, bucket: config.bucket.clone(), public_url: config.public_url.clone() }
    }

    /// Content type an object is uploaded with.
    pub fn content_type(key: &str) -> (r: String)
        ensures
            r@ == content_type_text(key@),
    {
        let cs = chars_of(key);
        let mp4 = chars_of(".mp4");
        let m4a = chars_of(".m4a");
        if ends_with_chars(&cs, &mp4) {
            String::from_str("video/mp4")
        } else if ends_with_chars(&cs, &m4a) {
            String::from_str("audio/mp4")
        } else {
            String::from_str("application/octet-stream")
        }
    }

    /// Public address of an uploaded object: the public URL, `/`, the key.
    pub fn download_url(&self, key: &str) -> (r: String)
        ensures
            r@ == self.public_url@ + "/"@ + key@,
    {
        let mut r = self.public_url.clone();
        r.append("/");
        r.append(key);
        r
    }
}

} // verus!
