use vstd::prelude::*;

use crate::text::{lower_of, lowercase, same_text};

verus! {

/// Where log data is searched.
#[derive(Debug, Clone, Copy, PartialEq, Eq, Structural)]
pub enum StorageTier {
    Indexes,
    OnlineArchives,
    Flex,
}

/// An argument that names no known value.
#[derive(Debug, Clone, PartialEq, Eq)]
pub enum ArgError {
    UnknownStorageTier { given: String },
    UnknownSort { given: String },
}

/// The tier a lowercased name selects.
pub open spec fn tier_named(lowered: Seq<char>) -> Option<StorageTier> {
    if lowered == "indexes"@ {
        Some(StorageTier::Indexes)
    } else if lowered == "online-archives"@ || lowered == "online_archives"@ {
        Some(StorageTier::OnlineArchives)
    } else if lowered == "flex"@ {
        Some(StorageTier::Flex)
    } else {
        None
    }
}

/// The tier named by an already lowercased name.
pub fn tier_from_lowered(lowered: &str) -> (r: Option<StorageTier>)
    ensures
        r == tier_named(lowered@),
{
    if same_text(lowered, "indexes") {
        Some(StorageTier::Indexes)
    } else if same_text(lowered, "online-archives") || same_text(lowered, "online_archives") {
        Some(StorageTier::OnlineArchives)
    } else if same_text(lowered, "flex") {
        Some(StorageTier::Flex)
    } else {
        None
    }
}

/// Reads an optional storage tier in any letter case: indexes, online-archives
/// (or online_archives), flex.
pub fn parse_storage_tier(storage: Option<String>) -> (r: Result<Option<StorageTier>, ArgError>)
    ensures
        storage is None ==> r == Ok::<Option<StorageTier>, ArgError>(None),
        storage is Some ==> match tier_named(lower_of(storage->0@)) {
            Some(t) => r == Ok::<Option<StorageTier>, ArgError>(Some(t)),
            None => (r matches Err(ArgError::UnknownStorageTier { given }) && given@ == lower_of(
                storage->0@,
            )),
        },
{
    match storage {
        None => Ok(None),
        Some(s) => {
            let lowered = lowercase(s.as_str());
            match tier_from_lowered(lowered.as_str()) {
                Some(t) => Ok(Some(t)),
                None => Err(ArgError::UnknownStorageTier { given: lowered }),
            }
        },
    }
}

/// Orders of an application-key listing.
#[derive(Debug, Clone, Copy, PartialEq, Eq, Structural)]
pub enum KeySort {
    CreatedAtAscending,
    CreatedAtDescending,
    Last4Ascending,
    Last4Descending,
    NameAscending,
    NameDescending,
}

/// The order a `--sort` value selects; a leading '-' means descending.
pub open spec fn sort_named(s: Seq<char>) -> Option<KeySort> {
    if s == "created_at"@ {
        Some(KeySort::CreatedAtAscending)
    } else if s == "-created_at"@ {
        Some(KeySort::CreatedAtDescending)
    } else if s == "last4"@ {
        Some(KeySort::Last4Ascending)
    } else if s == "-last4"@ {
        Some(KeySort::Last4Descending)
    } else if s == "name"@ {
        Some(KeySort::NameAscending)
    } else if s == "-name"@ {
        Some(KeySort::NameDescending)
    } else {
        None
    }
}

/// Reads a `--sort` value: name, created_at or last4, each optionally after '-'.
pub fn parse_sort(s: &str) -> (r: Result<KeySort, ArgError>)
    ensures
        sort_named(s@) matches Some(k) ==> r == Ok::<KeySort, ArgError>(k),
        sort_named(s@) is None ==> (r matches Err(ArgError::UnknownSort { given }) && given@
            == s@),
{
    if same_text(s, "created_at") {
        Ok(KeySort::CreatedAtAscending)
    } else if same_text(s, "-created_at") {
        Ok(KeySort::CreatedAtDescending)
    } else if same_text(s, "last4") {
        Ok(KeySort::Last4Ascending)
    } else if same_text(s, "-last4") {
        Ok(KeySort::Last4Descending)
    } else if same_text(s, "name") {
        Ok(KeySort::NameAscending)
    } else if same_text(s, "-name") {
        Ok(KeySort::NameDescending)
    } else {
        Err(ArgError::UnknownSort { given: String::from_str(s) })
    }
}

} // verus!
