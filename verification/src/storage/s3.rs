//! An S3 compatible store: its settings, its failures and the paths of its
//! objects.
use vstd::prelude::*;
use vstd::string::*;

use crate::storage::StorageError;
use crate::text::{lower_text, same_text, starts_with, trim_end, trim_start};

verus! {

/// From this size on an object is sent in parts.
pub const MULTIPART_THRESHOLD: u64 = 5_242_880;

/// The size of a part.
pub const MULTIPART_PART_SIZE: usize = 5_242_880;

// ── settings ────────────────────────────────────────────────────────────

/// The settings of the store as they are found, each `None` where it is not
/// set.
#[derive(Debug)]
pub struct S3Variables {
    pub endpoint: Option<String>,
    pub bucket: Option<String>,
    pub region: Option<String>,
    pub access_key_id: Option<String>,
    pub secret_access_key: Option<String>,
    pub force_path_style: Option<String>,
    pub public_base_url: Option<String>,
}

/// The settings of the store.
#[derive(Debug)]
pub struct S3Settings {
    pub endpoint: String,
    pub bucket: String,
    pub region: String,
    pub access_key_id: String,
    pub secret_access_key: String,
    /// Whether the bucket is named in the path of an address.
    pub force_path_style: bool,
    /// Whether the store may be reached without encryption.
    pub allow_http: bool,
    /// The address under which objects are public.
    pub public_base_url: String,
}

/// Whether a setting says yes.
pub open spec fn says_yes(value: Seq<char>) -> bool {
    let value = crate::text::lower(value);
    value == "1"@ || value == "true"@ || value == "yes"@
}

/// The first of the required settings that is missing.
pub open spec fn first_missing(variables: S3Variables) -> Option<Seq<char>> {
    if variables.endpoint is None {
        Some("S3_ENDPOINT"@)
    } else if variables.bucket is None {
        Some("S3_BUCKET"@)
    } else if variables.region is None {
        Some("S3_REGION"@)
    } else if variables.access_key_id is None {
        Some("S3_ACCESS_KEY_ID"@)
    } else if variables.secret_access_key is None {
        Some("S3_SECRET_ACCESS_KEY"@)
    } else {
        None
    }
}

fn not_set(name: &str) -> (error: StorageError)
    ensures
        error@ == crate::storage::StorageErrorView::Other(name@ + " is not set"@),
{
    let mut message = name.to_string();
    message.append(" is not set");
    StorageError::Other(message)
}

impl S3Settings {
    /// Reads the settings. Every one but the path style and the public address
    /// is required; the first that is missing is named.
    pub fn from_variables(variables: S3Variables) -> (settings: Result<S3Settings, StorageError>)
        ensures
            match first_missing(variables) {
                Some(name) => settings matches Err(error) && error@
                    == crate::storage::StorageErrorView::Other(name + " is not set"@),
                None => {
                    &&& settings matches Ok(found)
                    &&& found.endpoint@ == variables.endpoint->0@
                    &&& found.bucket@ == variables.bucket->0@
                    &&& found.region@ == variables.region->0@
                    &&& found.access_key_id@ == variables.access_key_id->0@
                    &&& found.secret_access_key@ == variables.secret_access_key->0@
                    &&& found.force_path_style == (variables.force_path_style matches Some(value)
                        && says_yes(value@))
                    &&& found.allow_http == "http://"@.is_prefix_of(variables.endpoint->0@)
                    &&& found.public_base_url@ == crate::text::trimmed_end(
                        match variables.public_base_url {
                            Some(url) => url@,
                            None => crate::text::trimmed_end(variables.endpoint->0@, '/') + "/"@
                                + crate::text::trimmed_start(variables.bucket->0@, '/'),
                        },
                        '/',
                    )
                },
            },
    {
        let endpoint = match variables.endpoint {
            Some(endpoint) => endpoint,
            None => {
                return Err(not_set("S3_ENDPOINT"));
            },
        };
        let bucket = match variables.bucket {
            Some(bucket) => bucket,
            None => {
                return Err(not_set("S3_BUCKET"));
            },
        };
        let region = match variables.region {
            Some(region) => region,
            None => {
                return Err(not_set("S3_REGION"));
            },
        };
        let access_key_id = match variables.access_key_id {
            Some(access_key_id) => access_key_id,
            None => {
                return Err(not_set("S3_ACCESS_KEY_ID"));
            },
        };
        let secret_access_key = match variables.secret_access_key {
            Some(secret_access_key) => secret_access_key,
            None => {
                return Err(not_set("S3_SECRET_ACCESS_KEY"));
            },
        };
        let force_path_style = match variables.force_path_style {
            Some(value) => {
                let value = lower_text(value.as_str());
                same_text(value.as_str(), "1") || same_text(value.as_str(), "true") || same_text(
                    value.as_str(),
                    "yes",
                )
            },
            None => false,
        };
        let public_base_url = match variables.public_base_url {
            Some(url) => url,
            None => {
                let mut url = trim_end(endpoint.as_str(), '/');
                url.append("/");
                let name = trim_start(bucket.as_str(), '/');
                url.append(name.as_str());
                url
            },
        };
        let public_base_url = trim_end(public_base_url.as_str(), '/');
        let allow_http = starts_with(endpoint.as_str(), "http://");
        Ok(
            S3Settings {
                endpoint,
                bucket,
                region,
                access_key_id,
                secret_access_key,
                force_path_style,
                allow_http,
                public_base_url,
            },
        )
    }
}

/// What was asked of the store.
#[derive(Debug, Clone, Copy, PartialEq, Eq, Structural)]
pub enum Request {
    /// To be set up.
    Build,
    /// To delete an object.
    Delete,
    /// To open an object.
    Get,
    /// To hand over the next bytes of an object.
    Stream,
}

/// The error for a request that the store refused.
pub fn request_failure(request: Request, message: &str) -> (error: StorageError)
    ensures
        error@ == crate::storage::StorageErrorView::Other(
            (match request {
                Request::Build => "S3 client build failed: "@,
                Request::Delete => "S3 DeleteObject failed: "@,
                Request::Get => "S3 GetObject failed: "@,
                Request::Stream => "S3 GetObject stream failed: "@,
            }) + message@,
        ),
{
    let mut text = match request {
        Request::Build => "S3 client build failed: ".to_string(),
        Request::Delete => "S3 DeleteObject failed: ".to_string(),
        Request::Get => "S3 GetObject failed: ".to_string(),
        Request::Stream => "S3 GetObject stream failed: ".to_string(),
    };
    text.append(message);
    StorageError::Other(text)
}

// ── keys ────────────────────────────────────────────────────────────────

/// Whether a character is an ASCII control character.
pub open spec fn is_control(c: char) -> bool {
    c as u32 <= 0x1f || c as u32 == 0x7f
}

/// Whether a piece can stand between the slashes of an object's path.
pub open spec fn is_object_piece(piece: Seq<char>) -> bool {
    &&& piece.len() > 0
    &&& piece != "."@
    &&& piece != ".."@
    &&& forall|i: int| 0 <= i < piece.len() ==> !is_control(#[trigger] piece[i])
}

/// Whether all pieces of a path can stand in it.
pub open spec fn is_object_path(path: Seq<char>) -> bool {
    forall|i: int|
        0 <= i < crate::text::split(path, '/').len() ==> is_object_piece(
            #[trigger] crate::text::split(path, '/')[i],
        )
}

/// The path of an object with the given key: the key without one slash at its
/// start and one at its end, if all its pieces can stand in a path. A key
/// that is nothing but a slash, or empty, is the empty path.
pub open spec fn object_path(key: Seq<char>) -> Option<Seq<char>> {
    let start = if key.len() > 0 && key[0] == '/' {
        key.drop_first()
    } else {
        key
    };
    if start.len() == 0 {
        Some(start)
    } else {
        let path = if start.last() == '/' {
            start.drop_last()
        } else {
            start
        };
        if is_object_path(path) {
            Some(path)
        } else {
            None
        }
    }
}

/// `object_store::path::Path::parse`. The contract states which keys are
/// accepted and how the path reads.
#[verifier::external_body]
fn parse_path(key: &str) -> (path: Option<String>)
    ensures
        match path {
            Some(path) => object_path(key@) == Some(path@),
            None => object_path(key@) is None,
        },
{
    object_store::path::Path::parse(key).ok().map(|path| String::from(path))
}

/// The path of the object with the given key. An empty key is refused, and
/// so is one with an empty piece, `.`, `..` or a control character.
pub fn to_path(key: &str) -> (path: Result<String, StorageError>)
    ensures
        match path {
            Ok(path) => key@.len() > 0 && object_path(key@) == Some(path@),
            Err(error) => (key@.len() == 0 || object_path(key@) is None) && error@
                == crate::storage::StorageErrorView::InvalidKey,
        },
{
    if same_text(key, "") {
        proof {
            reveal_strlit("");
        }
        return Err(StorageError::InvalidKey);
    }
    proof {
        reveal_strlit("");
        if key@.len() == 0 {
            assert(key@ =~= ""@);
        }
    }
    match parse_path(key) {
        Some(path) => Ok(path),
        None => Err(StorageError::InvalidKey),
    }
}

/// No accepted key leads out of the bucket: none of the pieces of its path is
/// `.` or `..`.
pub proof fn law_object_paths_stay_inside(key: Seq<char>)
    ensures
        object_path(key) matches Some(path) ==> path.len() == 0 || forall|i: int|
            0 <= i < crate::text::split(path, '/').len() ==> (#[trigger] crate::text::split(
                path,
                '/',
            )[i]) != ".."@ && crate::text::split(path, '/')[i] != "."@,
{
}

/// A setting says yes by `1`, `true` or `yes`, in whatever case, and by nothing
/// else.
pub proof fn law_yes_in_any_case(a: Seq<char>, b: Seq<char>)
    ensures
        crate::text::lower(a) == crate::text::lower(b) ==> says_yes(a) == says_yes(b),
        says_yes(a) ==> a.len() == 1 || a.len() == 4 || a.len() == 3,
        says_yes("1"@) && says_yes("true"@) && says_yes("yes"@),
        crate::text::lower(a) != "1"@ && crate::text::lower(a) != "true"@ && crate::text::lower(a)
            != "yes"@ ==> !says_yes(a),
{
    reveal_strlit("1");
    reveal_strlit("true");
    reveal_strlit("yes");
    assert(crate::text::lower("1"@) =~= "1"@);
    assert(crate::text::lower("true"@) =~= "true"@);
    assert(crate::text::lower("yes"@) =~= "yes"@);
    assert(crate::text::lower(a).len() == a.len());
}

/// The settings are complete exactly if the endpoint, the bucket, the region
/// and both halves of the credentials are set.
pub proof fn law_complete_settings(variables: S3Variables)
    ensures
        first_missing(variables) is None <==> variables.endpoint is Some && variables.bucket is Some
            && variables.region is Some && variables.access_key_id is Some
            && variables.secret_access_key is Some,
{
}

/// A key of plain names without control characters is the path of an object as
/// it stands, however many names it has; one slash before or behind it does
/// not change the path.
pub proof fn law_plain_keys_are_paths(names: Seq<Seq<char>>)
    requires
        names.len() > 0,
        forall|i: int| 0 <= i < names.len() ==> crate::paths::is_plain_name(#[trigger] names[i]),
        forall|i: int, k: int|
            0 <= i < names.len() && 0 <= k < names[i].len() ==> 0x20 <= (#[trigger] names[i][k]) as u32
                && names[i][k] as u32 != 0x7f,
    ensures
        ({
            let key = crate::text::joined(names, seq!['/']);
            &&& object_path(key) == Some(key)
            &&& object_path(seq!['/'] + key) == Some(key)
            &&& object_path(key + seq!['/']) == Some(key)
            &&& object_path(seq!['/'] + key + seq!['/']) == Some(key)
        }),
{
    let key = crate::text::joined(names, seq!['/']);
    reveal_strlit(".");
    reveal_strlit("..");
    assert("."@ =~= seq!['.']);
    assert(".."@ =~= seq!['.', '.']);
    assert forall|i: int| 0 <= i < names.len() implies !(#[trigger] names[i]).contains('/') by {
        assert(crate::paths::is_plain_name(names[i]));
    }
    crate::text::lemma_split_joined(names, '/');
    assert forall|i: int| 0 <= i < names.len() implies is_object_piece(#[trigger] names[i]) by {
        assert(crate::paths::is_plain_name(names[i]));
        assert forall|k: int| 0 <= k < names[i].len() implies !is_control(#[trigger] names[i][k]) by {
            assert(0x20 <= names[i][k] as u32 && names[i][k] as u32 != 0x7f);
        }
    }
    crate::paths::law_plain_names_stay_below(names);
    assert(key[0] != '/') by {
        assert(crate::paths::is_plain_name(names[0]));
        assert(names[0].contains(names[0][0]));
    }
    let last = names[names.len() - 1];
    assert(crate::paths::is_plain_name(last));
    assert(last.contains(last.last()));
    assert(key.last() == last.last());
    assert((seq!['/'] + key).drop_first() =~= key);
    assert((key + seq!['/']).drop_last() =~= key);
    assert((seq!['/'] + key + seq!['/']).drop_first() =~= key + seq!['/']);
}

/// From 5 MiB on an object is sent in parts, and these have 5 MiB.
pub proof fn law_part_sizes()
    ensures
        MULTIPART_THRESHOLD == 5 * 1024 * 1024,
        MULTIPART_PART_SIZE == 5 * 1024 * 1024,
{
}

} // verus!
