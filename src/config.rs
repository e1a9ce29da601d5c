//! Bucket configuration: secrets, storage classes, and the settings of each backend.

use crate::text::{blank, is_blank, same_text};
use crate::url_path::{dir_form, joined, UrlDirPath, UrlPath};
use vstd::prelude::*;

verus! {

/// A plaintext secret; it is shown as `[REDACTED]`, and its content is given out
/// only by [`Secret::read`].
#[derive(Clone, PartialEq, Eq)]
pub struct Secret {
    content: String,
}

impl View for Secret {
    type V = Seq<char>;

    closed spec fn view(&self) -> Seq<char> {
        self.content@
    }
}

impl Secret {
    /// Wraps a plaintext.
    pub fn from_string(content: String) -> (r: Secret)
        ensures
            r@ == content@,
    {
        Secret { content }
    }

    /// Reads the content of the secret.
    pub fn read(&self) -> (r: &str)
        ensures
            r@ == self@,
    {
        self.content.as_str()
    }

    /// The text shown for a secret, whatever it holds.
    pub fn to_string(&self) -> (r: String)
        ensures
            r@ == "[REDACTED]"@,
    {
        "[REDACTED]".to_owned()
    }
}

impl Drop for Secret {
    /// Relies on zeroize's `Zeroize` for `String`: the plaintext's bytes are
    /// overwritten with zeros before the memory is released.
    #[verifier::external_body]
    fn drop(&mut self)
        opens_invariants none
        no_unwind
    {
        zeroize::Zeroize::zeroize(&mut self.content);
    }
}

/// Default storage class of a GCS bucket.
#[allow(non_camel_case_types)]
#[derive(Debug, Clone, Copy, PartialEq, Eq, Structural)]
pub enum GcsStorageClass {
    STANDARD,
    NEARLINE,
    COLDLINE,
    ARCHIVE,
}

/// The name of a GCS storage class.
pub open spec fn gcs_class_name(c: GcsStorageClass) -> Seq<char> {
    match c {
        GcsStorageClass::STANDARD => "STANDARD"@,
        GcsStorageClass::NEARLINE => "NEARLINE"@,
        GcsStorageClass::COLDLINE => "COLDLINE"@,
        GcsStorageClass::ARCHIVE => "ARCHIVE"@,
    }
}

impl GcsStorageClass {
    /// All classes, in declaration order.
    pub fn variants() -> (r: Vec<GcsStorageClass>)
        ensures
            r@ == seq![
                GcsStorageClass::STANDARD,
                GcsStorageClass::NEARLINE,
                GcsStorageClass::COLDLINE,
                GcsStorageClass::ARCHIVE,
            ],
    {
        let r = vec![
            GcsStorageClass::STANDARD,
            GcsStorageClass::NEARLINE,
            GcsStorageClass::COLDLINE,
            GcsStorageClass::ARCHIVE,
        ];
        assert(r@ =~= seq![
            GcsStorageClass::STANDARD,
            GcsStorageClass::NEARLINE,
            GcsStorageClass::COLDLINE,
            GcsStorageClass::ARCHIVE,
        ]);
        r
    }

    /// The class's name.
    pub fn as_str(&self) -> (r: &'static str)
        ensures
            r@ == gcs_class_name(*self),
    {
        match self {
            GcsStorageClass::STANDARD => "STANDARD",
            GcsStorageClass::NEARLINE => "NEARLINE",
            GcsStorageClass::COLDLINE => "COLDLINE",
            GcsStorageClass::ARCHIVE => "ARCHIVE",
        }
    }

    /// The class with the given name; anything else is an unknown variant.
    pub fn from_name(s: &str) -> (r: Result<GcsStorageClass, String>)
        ensures
            r matches Ok(c) ==> gcs_class_name(c) == s@,
            r is Err <==> (forall|c: GcsStorageClass| gcs_class_name(c) != s@),
            r matches Err(m) ==> m@ == "unknown variant "@ + s@,
    {
        let all = GcsStorageClass::variants();
        let mut i: usize = 0;
        while i < all.len()
            invariant
                all@ == seq![
                    GcsStorageClass::STANDARD,
                    GcsStorageClass::NEARLINE,
                    GcsStorageClass::COLDLINE,
                    GcsStorageClass::ARCHIVE,
                ],
                i <= all@.len(),
                forall|k: int| 0 <= k < i ==> gcs_class_name(#[trigger] all@[k]) != s@,
            decreases all@.len() - i,
        {
            let c = all[i];
            if same_text(c.as_str(), s) {
                return Ok(c);
            }
            i = i + 1;
        }
        proof {
            assert forall|c: GcsStorageClass| gcs_class_name(c) != s@ by {
                match c {
                    GcsStorageClass::STANDARD => assert(all@[0] == c),
                    GcsStorageClass::NEARLINE => assert(all@[1] == c),
                    GcsStorageClass::COLDLINE => assert(all@[2] == c),
                    GcsStorageClass::ARCHIVE => assert(all@[3] == c),
                }
            }
        }
        Err(unknown_variant(s))
    }
}

/// Default storage class of an S3 bucket.
#[allow(non_camel_case_types)]
#[derive(Debug, Clone, Copy, PartialEq, Eq, Structural)]
pub enum S3StorageClass {
    DEEP_ARCHIVE,
    GLACIER,
    GLACIER_IR,
    INTELLIGENT_TIERING,
    ONEZONE_IA,
    OUTPOSTS,
    REDUCED_REDUNDANCY,
    STANDARD,
    STANDARD_IA,
}

/// The name of an S3 storage class.
pub open spec fn s3_class_name(c: S3StorageClass) -> Seq<char> {
    match c {
        S3StorageClass::DEEP_ARCHIVE => "DEEP_ARCHIVE"@,
        S3StorageClass::GLACIER => "GLACIER"@,
        S3StorageClass::GLACIER_IR => "GLACIER_IR"@,
        S3StorageClass::INTELLIGENT_TIERING => "INTELLIGENT_TIERING"@,
        S3StorageClass::ONEZONE_IA => "ONEZONE_IA"@,
        S3StorageClass::OUTPOSTS => "OUTPOSTS"@,
        S3StorageClass::REDUCED_REDUNDANCY => "REDUCED_REDUNDANCY"@,
        S3StorageClass::STANDARD => "STANDARD"@,
        S3StorageClass::STANDARD_IA => "STANDARD_IA"@,
    }
}

/// All S3 storage classes, in declaration order.
pub open spec fn s3_classes() -> Seq<S3StorageClass> {
    seq![
        S3StorageClass::DEEP_ARCHIVE,
        S3StorageClass::GLACIER,
        S3StorageClass::GLACIER_IR,
        S3StorageClass::INTELLIGENT_TIERING,
        S3StorageClass::ONEZONE_IA,
        S3StorageClass::OUTPOSTS,
        S3StorageClass::REDUCED_REDUNDANCY,
        S3StorageClass::STANDARD,
        S3StorageClass::STANDARD_IA,
    ]
}

impl S3StorageClass {
    /// All classes, in declaration order.
    pub fn variants() -> (r: Vec<S3StorageClass>)
        ensures
            r@ == s3_classes(),
    {
        let r = vec![
            S3StorageClass::DEEP_ARCHIVE,
            S3StorageClass::GLACIER,
            S3StorageClass::GLACIER_IR,
            S3StorageClass::INTELLIGENT_TIERING,
            S3StorageClass::ONEZONE_IA,
            S3StorageClass::OUTPOSTS,
            S3StorageClass::REDUCED_REDUNDANCY,
            S3StorageClass::STANDARD,
            S3StorageClass::STANDARD_IA,
        ];
        assert(r@ =~= s3_classes());
        r
    }

    /// The class's name.
    pub fn as_str(&self) -> (r: &'static str)
        ensures
            r@ == s3_class_name(*self),
    {
        match self {
            S3StorageClass::DEEP_ARCHIVE => "DEEP_ARCHIVE",
            S3StorageClass::GLACIER => "GLACIER",
            S3StorageClass::GLACIER_IR => "GLACIER_IR",
            S3StorageClass::INTELLIGENT_TIERING => "INTELLIGENT_TIERING",
            S3StorageClass::ONEZONE_IA => "ONEZONE_IA",
            S3StorageClass::OUTPOSTS => "OUTPOSTS",
            S3StorageClass::REDUCED_REDUNDANCY => "REDUCED_REDUNDANCY",
            S3StorageClass::STANDARD => "STANDARD",
            S3StorageClass::STANDARD_IA => "STANDARD_IA",
        }
    }

    /// The class with the given name; anything else is an unknown variant.
    pub fn from_name(s: &str) -> (r: Result<S3StorageClass, String>)
        ensures
            r matches Ok(c) ==> s3_class_name(c) == s@,
            r is Err <==> (forall|c: S3StorageClass| s3_class_name(c) != s@),
            r matches Err(m) ==> m@ == "unknown variant "@ + s@,
    {
        let all = S3StorageClass::variants();
        let mut i: usize = 0;
        while i < all.len()
            invariant
                all@ == s3_classes(),
                i <= all@.len(),
                forall|k: int| 0 <= k < i ==> s3_class_name(#[trigger] all@[k]) != s@,
            decreases all@.len() - i,
        {
            let c = all[i];
            if same_text(c.as_str(), s) {
                return Ok(c);
            }
            i = i + 1;
        }
        proof {
            assert forall|c: S3StorageClass| s3_class_name(c) != s@ by {
                let k: int = match c {
                    S3StorageClass::DEEP_ARCHIVE => 0,
                    S3StorageClass::GLACIER => 1,
                    S3StorageClass::GLACIER_IR => 2,
                    S3StorageClass::INTELLIGENT_TIERING => 3,
                    S3StorageClass::ONEZONE_IA => 4,
                    S3StorageClass::OUTPOSTS => 5,
                    S3StorageClass::REDUCED_REDUNDANCY => 6,
                    S3StorageClass::STANDARD => 7,
                    S3StorageClass::STANDARD_IA => 8,
                };
                assert(all@[k] == c);
            }
        }
        Err(unknown_variant(s))
    }
}

/// The kind of backend a profile connects to.
#[allow(non_camel_case_types)]
#[derive(Debug, Clone, Copy, PartialEq, Eq, Structural)]
pub enum BucketVariant {
    gcs,
    s3,
}

/// The name of a backend kind.
pub open spec fn variant_name(v: BucketVariant) -> Seq<char> {
    match v {
        BucketVariant::gcs => "gcs"@,
        BucketVariant::s3 => "s3"@,
    }
}

impl BucketVariant {
    /// All kinds, in declaration order.
    pub fn variants() -> (r: Vec<BucketVariant>)
        ensures
            r@ == seq![BucketVariant::gcs, BucketVariant::s3],
    {
        let r = vec![BucketVariant::gcs, BucketVariant::s3];
        assert(r@ =~= seq![BucketVariant::gcs, BucketVariant::s3]);
        r
    }

    /// The kind's name.
    pub fn as_str(&self) -> (r: &'static str)
        ensures
            r@ == variant_name(*self),
    {
        match self {
            BucketVariant::gcs => "gcs",
            BucketVariant::s3 => "s3",
        }
    }

    /// The kind with the given name; anything else is an unknown variant.
    pub fn from_name(s: &str) -> (r: Result<BucketVariant, String>)
        ensures
            r matches Ok(v) ==> variant_name(v) == s@,
            r is Err <==> (forall|v: BucketVariant| variant_name(v) != s@),
            r matches Err(m) ==> m@ == "unknown variant "@ + s@,
    {
        if same_text("gcs", s) {
            Ok(BucketVariant::gcs)
        } else if same_text("s3", s) {
            Ok(BucketVariant::s3)
        } else {
            proof {
                assert forall|v: BucketVariant| variant_name(v) != s@ by {
                    match v {
                        BucketVariant::gcs => {},
                        BucketVariant::s3 => {},
                    }
                }
            }
            Err(unknown_variant(s))
        }
    }
}

/// The message for a name that no variant has.
fn unknown_variant(s: &str) -> (r: String)
    ensures
        r@ == "unknown variant "@ + s@,
{
    let mut m = String::new();
    m.append("unknown variant ");
    m.append(s);
    proof {
        reveal_strlit("unknown variant ");
        assert(m@ =~= "unknown variant "@ + s@);
    }
    m
}

/// Settings of a GCS bucket.
#[derive(Clone)]
pub struct GCSConfig {
    pub name: String,
    pub credential: Option<Secret>,
    pub credential_path: Option<String>,
    pub default_storage_class: Option<GcsStorageClass>,
    pub endpoint: Option<UrlPath>,
    pub prefix: Option<UrlDirPath>,
    pub predefined_acl: Option<String>,
}

/// Settings of an S3 bucket.
#[derive(Clone)]
pub struct S3Config {
    pub name: String,
    pub endpoint: Option<UrlPath>,
    pub prefix: Option<UrlDirPath>,
    pub region: Option<String>,
    pub access_key_id: Option<Secret>,
    pub secret_access_key: Option<Secret>,
    pub default_storage_class: Option<S3StorageClass>,
}

/// The bucket a profile connects to.
#[derive(Clone)]
pub enum Bucket {
    Gcs(GCSConfig),
    S3(S3Config),
}

impl Bucket {
    /// The kind of backend.
    pub fn variant(&self) -> (r: BucketVariant)
        ensures
            r == (match self {
                Bucket::Gcs(_) => BucketVariant::gcs,
                Bucket::S3(_) => BucketVariant::s3,
            }),
    {
        match self {
            Bucket::Gcs(_) => BucketVariant::gcs,
            Bucket::S3(_) => BucketVariant::s3,
        }
    }
}

/// The text form of an optional secret.
pub open spec fn secret_text(s: Option<Secret>) -> Option<Seq<char>> {
    match s {
        Some(x) => Some(x@),
        None => None,
    }
}

/// The text form of an optional string.
pub open spec fn opt_text(s: Option<String>) -> Option<Seq<char>> {
    match s {
        Some(x) => Some(x@),
        None => None,
    }
}

/// The text handed to the backend for an endpoint: the segments joined by `/`.
pub open spec fn endpoint_text(e: Option<UrlPath>) -> Option<Seq<char>> {
    match e {
        Some(p) => Some(joined(p@)),
        None => None,
    }
}

/// The text handed to the backend for a root prefix: the absolute directory form.
pub open spec fn root_text(p: Option<UrlDirPath>) -> Option<Seq<char>> {
    match p {
        Some(d) => Some(dir_form(d@)),
        None => None,
    }
}

/// The settings a storage backend is built from, as plain text. Absent values
/// leave the backend's own default in place.
#[derive(Clone)]
pub struct BackendSettings {
    pub variant: BucketVariant,
    pub bucket: String,
    pub endpoint: Option<String>,
    pub root: Option<String>,
    pub credential: Option<String>,
    pub credential_path: Option<String>,
    pub predefined_acl: Option<String>,
    pub region: Option<String>,
    pub access_key_id: Option<String>,
    pub secret_access_key: Option<String>,
    pub default_storage_class: Option<String>,
}

pub(crate) fn clone_opt_string(s: &Option<String>) -> (r: Option<String>)
    ensures
        opt_text(r) == opt_text(*s),
{
    match s {
        Some(x) => Some(x.clone()),
        None => None,
    }
}

fn secret_string(s: &Option<Secret>) -> (r: Option<String>)
    ensures
        opt_text(r) == secret_text(*s),
{
    match s {
        Some(x) => Some(x.read().to_owned()),
        None => None,
    }
}

fn endpoint_string(e: &Option<UrlPath>) -> (r: Option<String>)
    ensures
        opt_text(r) == endpoint_text(*e),
{
    match e {
        Some(p) => Some(p.to_string()),
        None => None,
    }
}

fn root_string(p: &Option<UrlDirPath>) -> (r: Option<String>)
    ensures
        opt_text(r) == root_text(*p),
{
    match p {
        Some(d) => Some(d.to_string()),
        None => None,
    }
}

impl GCSConfig {
    /// The backend settings of this bucket.
    pub fn backend_settings(&self) -> (r: BackendSettings)
        ensures
            r.variant == BucketVariant::gcs,
            r.bucket@ == self.name@,
            opt_text(r.endpoint) == endpoint_text(self.endpoint),
            opt_text(r.credential) == secret_text(self.credential),
            opt_text(r.credential_path) == opt_text(self.credential_path),
            opt_text(r.root) == root_text(self.prefix),
            opt_text(r.predefined_acl) == opt_text(self.predefined_acl),
            r.default_storage_class matches Some(c) ==> self.default_storage_class matches Some(k)
                && c@ == gcs_class_name(k),
            r.default_storage_class is None <==> self.default_storage_class is None,
            r.region is None,
            r.access_key_id is None,
            r.secret_access_key is None,
    {
        BackendSettings {
            variant: BucketVariant::gcs,
            bucket: self.name.clone(),
            endpoint: endpoint_string(&self.endpoint),
            root: root_string(&self.prefix),
            credential: secret_string(&self.credential),
            credential_path: clone_opt_string(&self.credential_path),
            predefined_acl: clone_opt_string(&self.predefined_acl),
            region: None,
            access_key_id: None,
            secret_access_key: None,
            default_storage_class: match self.default_storage_class {
                Some(c) => Some(c.as_str().to_owned()),
                None => None,
            },
        }
    }
}

impl S3Config {
    /// The backend settings of this bucket.
    pub fn backend_settings(&self) -> (r: BackendSettings)
        ensures
            r.variant == BucketVariant::s3,
            r.bucket@ == self.name@,
            opt_text(r.endpoint) == endpoint_text(self.endpoint),
            opt_text(r.root) == root_text(self.prefix),
            opt_text(r.region) == opt_text(self.region),
            opt_text(r.access_key_id) == secret_text(self.access_key_id),
            opt_text(r.secret_access_key) == secret_text(self.secret_access_key),
            r.default_storage_class matches Some(c) ==> self.default_storage_class matches Some(k)
                && c@ == s3_class_name(k),
            r.default_storage_class is None <==> self.default_storage_class is None,
            r.credential is None,
            r.credential_path is None,
            r.predefined_acl is None,
    {
        BackendSettings {
            variant: BucketVariant::s3,
            bucket: self.name.clone(),
            endpoint: endpoint_string(&self.endpoint),
            root: root_string(&self.prefix),
            credential: None,
            credential_path: None,
            predefined_acl: None,
            region: clone_opt_string(&self.region),
            access_key_id: secret_string(&self.access_key_id),
            secret_access_key: secret_string(&self.secret_access_key),
            default_storage_class: match self.default_storage_class {
                Some(c) => Some(c.as_str().to_owned()),
                None => None,
            },
        }
    }
}

/// Keeps a text unless it is blank.
pub fn reject_empty_string(input: String) -> (r: Option<String>)
    ensures
        is_blank(input@) ==> r is None,
        !is_blank(input@) ==> r == Some(input),
{
    if blank(input.as_str()) {
        None
    } else {
        Some(input)
    }
}

/// Keeps a path unless it is the root.
pub fn reject_empty_url(input: UrlPath) -> (r: Option<UrlPath>)
    ensures
        input@.len() == 0 ==> r is None,
        input@.len() > 0 ==> r == Some(input),
{
    if input.is_empty() {
        None
    } else {
        Some(input)
    }
}

/// Keeps a directory unless it is the root.
pub fn reject_empty_url_dir(input: UrlDirPath) -> (r: Option<UrlDirPath>)
    ensures
        input@.len() == 0 ==> r is None,
        input@.len() > 0 ==> r == Some(input),
{
    if input.is_empty() {
        None
    } else {
        Some(input)
    }
}

} // verus!
