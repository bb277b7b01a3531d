//! What a deployment configures: the providers and where each keeps its
//! forecasts.
use crate::error::{Error, Fault};
use crate::stamp::{stamp_of, Stamp};
use crate::text::{decimal_text, push_decimal};
use crate::time::{civil_instant, RefTime};
use flate2::bufread::GzEncoder;
use flate2::Compression;
use std::io::Read;
use vstd::prelude::*;
use vstd::string::*;

verus! {

#[derive(Debug, Clone, PartialEq, Eq)]
pub struct Config {
    pub providers: Vec<ProviderConfig>,
}

#[derive(Debug, Clone, PartialEq, Eq)]
pub enum ProviderConfig {
    Noaa(NoaaProviderConfig),
    Meteofrance(MeteofranceProviderConfig),
    Zezo(ZezoProviderConfig),
}

#[derive(Debug, Clone, PartialEq, Eq)]
pub struct NoaaProviderConfig {
    pub enabled: bool,
    /// A cycle to fetch at startup.
    pub init: Option<RefTime>,
    pub jsons: Storage,
}

#[derive(Debug, Clone, PartialEq, Eq)]
pub struct ZezoProviderConfig {
    pub enabled: bool,
    /// A cycle to fetch at startup.
    pub init: Option<RefTime>,
    pub pngs: Storage,
}

#[derive(Debug, Clone, PartialEq, Eq)]
pub struct MeteofranceProviderConfig {
    pub enabled: bool,
    pub token: String,
}

/// Where forecasts are kept: a directory, or a bucket of an object store.
#[derive(Debug, Clone, PartialEq, Eq)]
pub enum Storage {
    Local { dir: String },
    ObjectStorage {
        endpoint: String,
        region: String,
        bucket: String,
        access_key: String,
        secret_key: String,
    },
}

impl ProviderConfig {
    /// Whether the provider is switched on.
    pub open spec fn is_enabled(&self) -> bool {
        match self {
            ProviderConfig::Noaa(config) => config.enabled,
            ProviderConfig::Meteofrance(config) => config.enabled,
            ProviderConfig::Zezo(config) => config.enabled,
        }
    }

    /// Whether the provider is switched on.
    pub fn enabled(&self) -> (r: bool)
        ensures
            r == self.is_enabled(),
    {
        match self {
            ProviderConfig::Noaa(config) => config.enabled,
            ProviderConfig::Meteofrance(config) => config.enabled,
            ProviderConfig::Zezo(config) => config.enabled,
        }
    }
}

impl Storage {
    /// The text that stands for the storage in messages.
    pub open spec fn description(&self) -> Seq<char> {
        match self {
            Storage::Local { dir } => "Local ("@ + dir@ + ")"@,
            Storage::ObjectStorage { bucket, .. } => "ObjectStorage ("@ + bucket@ + ")"@,
        }
    }

    /// The text that stands for the storage in messages.
    pub fn describe(&self) -> (text: String)
        ensures
            text@ == self.description(),
    {
        match self {
            Storage::Local { dir } => {
                let mut text = String::from_str("Local (");
                text.append(dir.as_str());
                text.append(")");
                text
            },
            Storage::ObjectStorage { bucket, .. } => {
                let mut text = String::from_str("ObjectStorage (");
                text.append(bucket.as_str());
                text.append(")");
                text
            },
        }
    }
}

/// The status with which an object store answers an object that it has
/// taken.
pub const SAVED: u16 = 200;

/// The status with which an object store answers an object that it has
/// deleted.
pub const REMOVED: u16 = 204;

/// The type of the content of a stored forecast.
pub const CONTENT_TYPE: &'static str = "application/json";

/// How the content of a stored forecast is encoded.
pub const CONTENT_ENCODING: &'static str = "gzip";

/// How long a stored forecast may be cached: a week, and it never changes.
pub const CACHE_CONTROL: &'static str = "public, max-age=604800, immutable";

/// The bytes that gzip makes of `content` at its best level, as flate2 writes
/// them.
pub uninterp spec fn gzipped(content: Seq<u8>) -> Seq<u8>;

/// flate2's `bufread::GzEncoder::new` with `Compression::best()`, read to its
/// end. Believed of it: what is read depends on the content alone. (The
/// header that flate2 writes holds no time and no name, and reading from
/// bytes in memory does not fail.)
#[verifier::external_body]
fn gzip(content: &[u8]) -> (compressed: Vec<u8>)
    ensures
        compressed@ == gzipped(content@),
{
    let mut encoder = GzEncoder::new(content, Compression::best());
    let mut compressed = Vec::new();
    let _ = encoder.read_to_end(&mut compressed);
    compressed
}

/// What is sent to an object store to keep a forecast.
#[derive(Debug, Clone, PartialEq, Eq)]
pub struct PutObject {
    pub name: String,
    /// The forecast, compressed.
    pub content: Vec<u8>,
    pub content_type: String,
    pub headers: Vec<(String, String)>,
}

/// What is sent to an object store to keep the forecast `content` under
/// `name`: the content goes compressed, and is declared so, as messages that
/// may be cached for a week.
pub fn put_object(name: String, content: &[u8]) -> (r: PutObject)
    ensures
        r.name == name,
        r.content@ == gzipped(content@),
        r.content_type@ == CONTENT_TYPE@,
        r.headers@.len() == 2,
        r.headers@[0].0@ == "content-encoding"@,
        r.headers@[0].1@ == CONTENT_ENCODING@,
        r.headers@[1].0@ == "cache-control"@,
        r.headers@[1].1@ == CACHE_CONTROL@,
{
    put_compressed(name, gzip(content))
}

/// What is sent to an object store to keep under `name` a forecast that is
/// compressed already.
pub fn put_compressed(name: String, content: Vec<u8>) -> (r: PutObject)
    ensures
        r.name == name,
        r.content == content,
        r.content_type@ == CONTENT_TYPE@,
        r.headers@.len() == 2,
        r.headers@[0].0@ == "content-encoding"@,
        r.headers@[0].1@ == CONTENT_ENCODING@,
        r.headers@[1].0@ == "cache-control"@,
        r.headers@[1].1@ == CACHE_CONTROL@,
{
    let mut headers: Vec<(String, String)> = Vec::new();
    headers.push((String::from_str("content-encoding"), String::from_str(CONTENT_ENCODING)));
    headers.push((String::from_str("cache-control"), String::from_str(CACHE_CONTROL)));
    PutObject { name, content, content_type: String::from_str(CONTENT_TYPE), headers }
}

/// The text of the error for an object that the store did not take.
pub open spec fn not_saved_text(status_code: u16) -> Seq<char> {
    "Error saving file to s3 bucket : "@ + decimal_text(status_code as nat)
}

/// The text of the error for an object that the store did not delete.
pub open spec fn not_removed_text(status_code: u16) -> Seq<char> {
    "Error deleting file from s3 bucket : "@ + decimal_text(status_code as nat)
}

/// Whether an object store has taken an object, by the status of its answer.
pub fn check_saved(status_code: u16) -> (r: Result<(), Error>)
    ensures
        match r {
            Ok(_) => status_code == SAVED,
            Err(e) => status_code != SAVED && e@ == Fault::AnyhowError(
                not_saved_text(status_code),
            ),
        },
{
    if status_code == SAVED {
        Ok(())
    } else {
        let mut text = String::from_str("Error saving file to s3 bucket : ");
        push_decimal(&mut text, status_code as u64);
        Err(Error::AnyhowError(text))
    }
}

/// Whether an object store has deleted an object, by the status of its
/// answer.
pub fn check_removed(status_code: u16) -> (r: Result<(), Error>)
    ensures
        match r {
            Ok(_) => status_code == REMOVED,
            Err(e) => status_code != REMOVED && e@ == Fault::AnyhowError(
                not_removed_text(status_code),
            ),
        },
{
    if status_code == REMOVED {
        Ok(())
    } else {
        let mut text = String::from_str("Error deleting file from s3 bucket : ");
        push_decimal(&mut text, status_code as u64);
        Err(Error::AnyhowError(text))
    }
}

/// The places of the names that are names of stamps, in their order.
pub open spec fn stamp_names(names: Seq<Seq<char>>) -> Seq<int>
    decreases names.len(),
{
    if names.len() == 0 {
        Seq::empty()
    } else if stamp_of(names.last()) is Ok {
        stamp_names(names.drop_last()).push(names.len() - 1)
    } else {
        stamp_names(names.drop_last())
    }
}

/// The texts of the names.
pub open spec fn texts_of(names: Seq<String>) -> Seq<Seq<char>> {
    names.map_values(|name: String| name@)
}

/// The stamps of the names of a listing. A name that is not the name of a
/// stamp is passed over.
pub fn stamps_of_names(names: &Vec<String>) -> (stamps: Vec<Stamp>)
    ensures
        stamps@.len() == stamp_names(texts_of(names@)).len(),
        forall|k: int|
            0 <= k < stamps@.len() ==> {
                let at = stamp_names(texts_of(names@))[k];
                &&& 0 <= at < names@.len()
                &&& (#[trigger] stamps@[k]).file_name_text() == names@[at]@
                &&& stamps@[k].well_formed()
                &&& stamps@[k].wind is None
                &&& stamp_of(names@[at]@) matches Ok((civil, hour)) && stamps@[k].hour() == hour
                    && stamps@[k].ref_time == civil_instant(
                    civil.year as int,
                    civil.month as int,
                    civil.day as int,
                    civil.hour as int,
                    0,
                    0,
                )
            },
{
    let ghost texts = texts_of(names@);
    let mut stamps: Vec<Stamp> = Vec::new();
    let mut i: usize = 0;
    assert(texts.take(0) =~= Seq::<Seq<char>>::empty());
    while i < names.len()
        invariant
            i <= names.len(),
            texts == texts_of(names@),
            stamps@.len() == stamp_names(texts.take(i as int)).len(),
            forall|k: int|
                0 <= k < stamps@.len() ==> {
                    let at = stamp_names(texts.take(i as int))[k];
                    &&& 0 <= at < i
                    &&& (#[trigger] stamps@[k]).file_name_text() == names@[at]@
                    &&& stamps@[k].well_formed()
                    &&& stamps@[k].wind is None
                    &&& stamp_of(names@[at]@) matches Ok((civil, hour)) && stamps@[k].hour()
                        == hour && stamps@[k].ref_time == civil_instant(
                        civil.year as int,
                        civil.month as int,
                        civil.day as int,
                        civil.hour as int,
                        0,
                        0,
                    )
                },
        decreases names.len() - i,
    {
        proof {
            assert(texts.take(i + 1).drop_last() =~= texts.take(i as int));
            assert(texts.take(i + 1).last() == names@[i as int]@);
        }
        match Stamp::try_from(names[i].as_str()) {
            Ok(stamp) => {
                stamps.push(stamp);
            },
            Err(_) => {},
        }
        i = i + 1;
    }
    assert(texts.take(i as int) =~= texts);
    stamps
}

} // verus!
