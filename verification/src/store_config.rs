//! Choosing a blob store from its configuration.
//!
//! Checkpoints are archived in a blob store: a local directory, or a bucket
//! at one of three cloud providers. The configuration names the kind of store
//! and carries the settings of all kinds. This module decides which store the
//! configuration asks for and which of the settings go into it; opening the
//! store is left to the caller.

use std::path::PathBuf;
use vstd::prelude::*;

verus! {

/// `std::path::PathBuf`, carried through as it is.
#[verifier::external_type_specification]
#[verifier::external_body]
pub struct ExPathBuf(PathBuf);

/// The kind of a blob store.
#[derive(Clone, Copy, Debug, PartialEq, Eq, Structural)]
pub enum ObjectStoreType {
    /// A directory of the local file system.
    File,
    /// AWS S3.
    S3,
    /// Google Cloud Storage.
    GCS,
    /// Azure Blob Storage.
    Azure,
}

/// The configuration of a blob store.
#[derive(Clone, Debug)]
pub struct ObjectStoreConfig {
    /// The kind of store to use.
    pub object_store: Option<ObjectStoreType>,
    /// The local directory. Read only for a store of kind `File`.
    pub directory: Option<PathBuf>,
    /// The bucket, or for Azure the container. Read only for the cloud kinds.
    pub bucket: Option<String>,
    /// For S3: an access key that may read and write the bucket.
    pub aws_access_key_id: Option<String>,
    /// For S3: the secret access key that goes with the access key.
    pub aws_secret_access_key: Option<String>,
    /// For S3: the endpoint of the bucket.
    pub aws_endpoint: Option<String>,
    /// For S3: the region of the bucket.
    pub aws_region: Option<String>,
    /// For S3: a named profile. No store reads it.
    pub aws_profile: Option<String>,
    /// For S3: address the bucket in virtual hosted style.
    pub aws_virtual_hosted_style_request: bool,
    /// For S3: allow connections without encryption.
    pub aws_allow_http: bool,
    /// For Google Cloud Storage: the path of the file with the credentials.
    pub google_service_account: Option<String>,
    /// For Azure: the name of the storage account.
    pub azure_storage_account: Option<String>,
    /// For Azure: one of the keys of the storage account.
    pub azure_storage_access_key: Option<String>,
    /// For the cloud kinds: how many requests may be in flight at once.
    pub object_store_connection_limit: usize,
    /// Do not sign requests. No store reads it.
    pub no_sign_request: bool,
}

/// The connection limit of a configuration that names none.
pub fn default_object_store_connection_limit() -> (r: usize)
    ensures
        r == 20,
{
    20
}

/// The settings of an S3 store.
#[derive(Clone, Debug, PartialEq, Eq)]
pub struct S3Recipe {
    /// Fall back to version 1 of the instance metadata service. Always set.
    pub imdsv1_fallback: bool,
    pub virtual_hosted_style_request: bool,
    pub allow_http: bool,
    pub region: Option<String>,
    pub bucket_name: Option<String>,
    pub access_key_id: Option<String>,
    pub secret_access_key: Option<String>,
    pub endpoint: Option<String>,
    pub connection_limit: usize,
}

/// The settings of a Google Cloud Storage store.
#[derive(Clone, Debug, PartialEq, Eq)]
pub struct GcsRecipe {
    pub bucket_name: Option<String>,
    pub service_account_path: Option<String>,
    pub connection_limit: usize,
}

/// The settings of an Azure Blob Storage store.
#[derive(Clone, Debug, PartialEq, Eq)]
pub struct AzureRecipe {
    pub container_name: Option<String>,
    pub account: Option<String>,
    pub access_key: Option<String>,
    pub connection_limit: usize,
}

/// The store that a configuration asks for, with the settings that go into it.
#[derive(Clone, Debug, PartialEq, Eq)]
pub enum StoreRecipe<'a> {
    /// A store under a local directory, which is created if it is missing.
    LocalFs { directory: &'a PathBuf },
    S3(S3Recipe),
    Gcs(GcsRecipe),
    Azure(AzureRecipe),
}

/// Why a configuration gives no store.
#[derive(Clone, Copy, Debug, PartialEq, Eq, Structural)]
pub enum ConfigError {
    /// The configuration names no kind of store.
    NoBackend,
    /// The configuration asks for a local store and names no directory.
    NoDirectory,
}

/// A copy of an optional setting.
fn copy_setting(setting: &Option<String>) -> (r: Option<String>)
    ensures
        r == *setting,
{
    match setting {
        Some(value) => Some(value.clone()),
        None => None,
    }
}

impl ObjectStoreConfig {
    /// The local store that the configuration describes.
    pub open spec fn spec_new_local_fs(self) -> Result<StoreRecipe<'static>, ConfigError> {
        match self.directory {
            Some(directory) => Ok(StoreRecipe::LocalFs { directory: &directory }),
            None => Err(ConfigError::NoDirectory),
        }
    }

    /// The S3 store that the configuration describes.
    pub open spec fn spec_new_s3(self) -> S3Recipe {
        S3Recipe {
            imdsv1_fallback: true,
            virtual_hosted_style_request: self.aws_virtual_hosted_style_request,
            allow_http: self.aws_allow_http,
            region: self.aws_region,
            bucket_name: self.bucket,
            access_key_id: self.aws_access_key_id,
            secret_access_key: self.aws_secret_access_key,
            endpoint: self.aws_endpoint,
            connection_limit: self.object_store_connection_limit,
        }
    }

    /// The Google Cloud Storage store that the configuration describes.
    pub open spec fn spec_new_gcs(self) -> GcsRecipe {
        GcsRecipe {
            bucket_name: self.bucket,
            service_account_path: self.google_service_account,
            connection_limit: self.object_store_connection_limit,
        }
    }

    /// The Azure Blob Storage store that the configuration describes.
    pub open spec fn spec_new_azure(self) -> AzureRecipe {
        AzureRecipe {
            container_name: self.bucket,
            account: self.azure_storage_account,
            access_key: self.azure_storage_access_key,
            connection_limit: self.object_store_connection_limit,
        }
    }

    /// The store that the configuration asks for.
    pub open spec fn spec_make(self) -> Result<StoreRecipe<'static>, ConfigError> {
        match self.object_store {
            Some(ObjectStoreType::File) => self.spec_new_local_fs(),
            Some(ObjectStoreType::S3) => Ok(StoreRecipe::S3(self.spec_new_s3())),
            Some(ObjectStoreType::GCS) => Ok(StoreRecipe::Gcs(self.spec_new_gcs())),
            Some(ObjectStoreType::Azure) => Ok(StoreRecipe::Azure(self.spec_new_azure())),
            None => Err(ConfigError::NoBackend),
        }
    }

    /// A local store needs a directory, and nothing else.
    pub fn new_local_fs(&self) -> (r: Result<StoreRecipe<'_>, ConfigError>)
        ensures
            r == self.spec_new_local_fs(),
    {
        match &self.directory {
            Some(directory) => Ok(StoreRecipe::LocalFs { directory }),
            None => Err(ConfigError::NoDirectory),
        }
    }

    /// An S3 store takes the two switches, the region, the bucket, the access
    /// key with its secret, the endpoint and the connection limit.
    pub fn new_s3(&self) -> (r: S3Recipe)
        ensures
            r == self.spec_new_s3(),
    {
        S3Recipe {
            imdsv1_fallback: true,
            virtual_hosted_style_request: self.aws_virtual_hosted_style_request,
            allow_http: self.aws_allow_http,
            region: copy_setting(&self.aws_region),
            bucket_name: copy_setting(&self.bucket),
            access_key_id: copy_setting(&self.aws_access_key_id),
            secret_access_key: copy_setting(&self.aws_secret_access_key),
            endpoint: copy_setting(&self.aws_endpoint),
            connection_limit: self.object_store_connection_limit,
        }
    }

    /// A Google Cloud Storage store takes the bucket, the path of the
    /// credentials and the connection limit.
    pub fn new_gcs(&self) -> (r: GcsRecipe)
        ensures
            r == self.spec_new_gcs(),
    {
        GcsRecipe {
            bucket_name: copy_setting(&self.bucket),
            service_account_path: copy_setting(&self.google_service_account),
            connection_limit: self.object_store_connection_limit,
        }
    }

    /// An Azure Blob Storage store takes the bucket as its container, the
    /// storage account with its key and the connection limit.
    pub fn new_azure(&self) -> (r: AzureRecipe)
        ensures
            r == self.spec_new_azure(),
    {
        AzureRecipe {
            container_name: copy_setting(&self.bucket),
            account: copy_setting(&self.azure_storage_account),
            access_key: copy_setting(&self.azure_storage_access_key),
            connection_limit: self.object_store_connection_limit,
        }
    }

    /// The store that the configuration asks for. A configuration that names
    /// no kind of store gives none, and neither does one that asks for a
    /// local store without a directory.
    pub fn make(&self) -> (r: Result<StoreRecipe<'_>, ConfigError>)
        ensures
            r == self.spec_make(),
            r is Err <==> self.object_store is None || (self.object_store == Some(
                ObjectStoreType::File,
            ) && self.directory is None),
    {
        match &self.object_store {
            Some(ObjectStoreType::File) => self.new_local_fs(),
            Some(ObjectStoreType::S3) => Ok(StoreRecipe::S3(self.new_s3())),
            Some(ObjectStoreType::GCS) => Ok(StoreRecipe::Gcs(self.new_gcs())),
            Some(ObjectStoreType::Azure) => Ok(StoreRecipe::Azure(self.new_azure())),
            None => Err(ConfigError::NoBackend),
        }
    }
}

impl Default for ObjectStoreConfig {
    /// The configuration that names no store and no setting.
    fn default() -> (r: Self)
        ensures
            r.object_store is None,
            r.directory is None,
            r.bucket is None,
            r.aws_access_key_id is None,
            r.aws_secret_access_key is None,
            r.aws_endpoint is None,
            r.aws_region is None,
            r.aws_profile is None,
            !r.aws_virtual_hosted_style_request,
            !r.aws_allow_http,
            r.google_service_account is None,
            r.azure_storage_account is None,
            r.azure_storage_access_key is None,
            r.object_store_connection_limit == 0,
            !r.no_sign_request,
            r.spec_make() == Err::<StoreRecipe<'static>, ConfigError>(ConfigError::NoBackend),
    {
        ObjectStoreConfig {
            object_store: None,
            directory: None,
            bucket: None,
            aws_access_key_id: None,
            aws_secret_access_key: None,
            aws_endpoint: None,
            aws_region: None,
            aws_profile: None,
            aws_virtual_hosted_style_request: false,
            aws_allow_http: false,
            google_service_account: None,
            azure_storage_account: None,
            azure_storage_access_key: None,
            object_store_connection_limit: 0,
            no_sign_request: false,
        }
    }
}

} // verus!
