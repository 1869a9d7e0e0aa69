use vstd::prelude::*;
use crate::workspace::{joined, resolve};

verus! {

/// The two keys of the `default` profile of the credentials file.
#[derive(Debug, Clone, PartialEq, Eq)]
pub struct AwsCredentials {
    pub aws_access_key_id: String,
    pub aws_secret_access_key: String,
}

/// Where the credentials file lives for a user whose home directory is
/// `home`.
pub open spec fn credentials_path_of(home: Seq<char>) -> Seq<char> {
    joined(joined(home, ".aws"@), "credentials"@)
}

/// The path of the credentials file for a user whose home directory is
/// `home`.
pub fn credentials_path(home: &str) -> (r: String)
    ensures
        r@ == credentials_path_of(home@),
{
    let dir = resolve(home, ".aws");
    resolve(dir.as_str(), "credentials")
}

} // verus!
