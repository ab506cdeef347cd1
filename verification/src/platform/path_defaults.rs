//! Where the vault and the scan locations are by default.

use vstd::prelude::*;

use crate::platform::fs::{dedup_normalized, join, join_text, normalize_and_dedup_paths, string_views};

verus! {

/// The operating system the application runs on, as far as defaults care.
#[derive(Clone, Copy, Debug, PartialEq, Eq, Structural)]
pub enum HostOs {
    Windows,
    Linux,
    MacOs,
    Other,
}

/// The vault under the documents folder, or a relative `SlotForge/Vault`
/// without one.
pub fn default_vault_root(documents_dir: Option<&str>) -> (r: String)
    ensures
        r@ == match documents_dir {
            Some(d) => join_text(join_text(d@, "SlotForge"@), "Vault"@),
            None => join_text("SlotForge"@, "Vault"@),
        },
{
    match documents_dir {
        Some(d) => {
            let base = join(d, "SlotForge");
            join(base.as_str(), "Vault")
        },
        None => join("SlotForge", "Vault"),
    }
}

/// The folders where games commonly keep saves, before normalization.
pub open spec fn scan_candidates(home: Option<Seq<char>>, os: HostOs) -> Seq<Seq<char>> {
    match home {
        None => Seq::empty(),
        Some(h) => {
            let common = seq![
                join_text(h, "Saved Games"@),
                join_text(join_text(h, "Documents"@), "My Games"@),
                join_text(join_text(h, "Documents"@), "Saved Games"@),
            ];
            if os == HostOs::Linux {
                common + seq![join_text(join_text(h, ".local"@), "share"@), join_text(h, ".config"@)]
            } else if os == HostOs::MacOs {
                common + seq![join_text(join_text(h, "Library"@), "Application Support"@)]
            } else {
                common
            }
        },
    }
}

/// The default scan locations: under the home folder, `Saved Games`,
/// `Documents/My Games` and `Documents/Saved Games`, plus `.local/share` and
/// `.config` on Linux or `Library/Application Support` on macOS; normalized
/// and de-duplicated. None without a home folder.
pub fn default_scan_paths(home_dir: Option<&str>, os: HostOs) -> (r: Vec<String>)
    ensures
        string_views(r@) == dedup_normalized(scan_candidates(
            match home_dir {
                Some(h) => Some(h@),
                None => None,
            },
            os,
        )),
{
    let mut paths: Vec<String> = Vec::new();
    match home_dir {
        Some(h) => {
            paths.push(join(h, "Saved Games"));
            let docs = join(h, "Documents");
            paths.push(join(docs.as_str(), "My Games"));
            paths.push(join(docs.as_str(), "Saved Games"));
            if os == HostOs::Linux {
                let local = join(h, ".local");
                paths.push(join(local.as_str(), "share"));
                paths.push(join(h, ".config"));
            } else if os == HostOs::MacOs {
                let lib = join(h, "Library");
                paths.push(join(lib.as_str(), "Application Support"));
            }
        },
        None => {},
    }
    let ghost cands = scan_candidates(
        match home_dir {
            Some(h) => Some(h@),
            None => None,
        },
        os,
    );
    assert(string_views(paths@) =~= cands);
    normalize_and_dedup_paths(paths)
}

} // verus!
