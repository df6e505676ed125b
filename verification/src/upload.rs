//! The rules of the file upload: how a file is keyed in a store, what its
//! metadata says, when a failed request is tried again, and which store or
//! service version an answer of the API names.
use vstd::prelude::*;
use vstd::string::StringExecFns;

verus! {

/// How many failed requests for one upload are followed by another try.
pub const RETRY_REQUESTS: usize = 5;

/// What follows the answer to an upload request.
#[derive(Clone, Copy, Debug, PartialEq, Eq, Structural)]
pub enum Outcome {
    /// The upload is done.
    Done,
    /// The request failed and is sent again; `failures` have been counted.
    Retry { failures: usize },
    /// The request failed once too often.
    GiveUp,
}

/// What follows an answer with the HTTP status `status`, after `failures`
/// failed requests.
pub open spec fn outcome_of(failures: usize, status: u16) -> Outcome {
    if status == 200 {
        Outcome::Done
    } else if failures < RETRY_REQUESTS {
        Outcome::Retry { failures: (failures + 1) as usize }
    } else {
        Outcome::GiveUp
    }
}

/// Decides what follows an answer with the HTTP status `status`, after
/// `failures` failed requests: status 200 ends the upload; any other status
/// counts as one more failure, and the request is sent again until the count
/// goes above `RETRY_REQUESTS`.
pub fn after_response(failures: usize, status: u16) -> (r: Outcome)
    ensures
        r == outcome_of(failures, status),
{
    if status == 200 {
        Outcome::Done
    } else if failures < RETRY_REQUESTS {
        Outcome::Retry { failures: failures + 1 }
    } else {
        Outcome::GiveUp
    }
}

/// A KV store as the API lists it.
pub struct KVStore {
    pub id: String,
    pub name: String,
}

/// Whether `i` is the place of the first store of `stores` called `name`.
pub open spec fn is_first_store(stores: Seq<KVStore>, name: Seq<char>, i: int) -> bool {
    &&& 0 <= i < stores.len()
    &&& stores[i].name@ == name
    &&& forall|j: int| 0 <= j < i ==> (#[trigger] stores[j]).name@ != name
}

/// The identifier of the first store called `name`, if there is one.
pub fn find_store(stores: &Vec<KVStore>, name: &str) -> (r: Option<String>)
    ensures
        r matches Some(id) ==> exists|i: int|
            is_first_store(stores@, name@, i) && id@ == (#[trigger] stores@[i]).id@,
        r is None ==> forall|j: int| 0 <= j < stores.len() ==> (#[trigger] stores@[j]).name@
            != name@,
{
    let wanted = name.to_owned();
    let mut i: usize = 0;
    while i < stores.len()
        invariant
            i <= stores.len(),
            wanted@ == name@,
            forall|j: int| 0 <= j < i ==> (#[trigger] stores@[j]).name@ != name@,
        decreases stores.len() - i,
    {
        if stores[i].name == wanted {
            assert(is_first_store(stores@, name@, i as int));
            return Some(stores[i].id.clone());
        }
        i += 1;
    }
    None
}

/// A version of a service: its number, and whether it is the active one.
#[derive(Clone, Copy, Debug, PartialEq, Eq, Structural)]
pub struct ServiceVersion {
    pub number: i32,
    pub active: bool,
}

/// The number of the first active version, if any version is active.
pub fn active_version(versions: &Vec<ServiceVersion>) -> (r: Option<i32>)
    ensures
        r matches Some(n) ==> exists|i: int|
            0 <= i < versions.len() && (#[trigger] versions@[i]).active && versions@[i].number
                == n && forall|j: int| 0 <= j < i ==> !(#[trigger] versions@[j]).active,
        r is None ==> forall|j: int| 0 <= j < versions.len() ==> !(#[trigger] versions@[j]).active,
{
    let mut i: usize = 0;
    while i < versions.len()
        invariant
            i <= versions.len(),
            forall|j: int| 0 <= j < i ==> !(#[trigger] versions@[j]).active,
        decreases versions.len() - i,
    {
        if versions[i].active {
            return Some(versions[i].number);
        }
        i += 1;
    }
    None
}

/// The key of a file in the store: a slash, then the path of the file below
/// the directory that is uploaded.
pub fn store_key(relative: &str) -> (r: String)
    ensures
        r@ == "/"@ + relative@,
{
    String::from_str("/").concat(relative)
}

/// The key under which the metadata of the file keyed `key` are stored.
pub fn metadata_key(key: &str) -> (r: String)
    ensures
        r@ == key@ + "__metadata__"@,
{
    String::from_str(key).concat("__metadata__")
}

/// The weak entity tag of a file whose digest, in base 64, is `digest`.
pub fn etag(digest: &str) -> (r: String)
    ensures
        r@ == "W/\""@ + digest@ + "\""@,
{
    String::from_str("W/\"").concat(digest).concat("\"")
}

} // verus!
