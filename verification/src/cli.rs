//! The `steel` binary's command line and its `convert banned-ip`
//! maintenance command.
//!
//! The types mirror the command line that the binary parses; the decisions
//! of the conversion are functions here, and reading and writing the files
//! is left to the binary.

use vstd::prelude::*;
use crate::ip_access_policy::{BannedIP, IpAccessPolicy};

verus! {

/// The command line: a maintenance subcommand, or none to run the server.
pub struct Cli {
    pub command: Option<Command>,
}

/// A maintenance subcommand.
pub enum Command {
    /// Convert data from vanilla formats to Steel formats.
    Convert(ConvertArgs),
}

/// The arguments of `convert`.
pub struct ConvertArgs {
    /// What to convert.
    pub kind: ConvertKind,
    /// Overwrite Steel's existing data instead of refusing.
    pub force: bool,
}

/// What `convert` converts.
#[derive(Clone, Copy, Debug, PartialEq, Eq, Structural)]
pub enum ConvertKind {
    /// Vanilla's banned-ips file into Steel's bans file.
    BannedIp,
}

/// What reading vanilla's banned-ips file gave.
pub enum VanillaBansFile {
    /// The file does not exist.
    Missing,
    /// The file could not be read or parsed.
    Unreadable,
    /// The entries of the file.
    Loaded(Vec<BannedIP>),
}

/// Why `convert banned-ip` refused or failed.
#[derive(Clone, Copy, Debug, PartialEq, Eq, Structural)]
pub enum ConvertFailure {
    /// Steel's ban list already holds this many entries and `--force` was
    /// not given.
    ExistingBans(usize),
    /// Vanilla's file does not exist.
    VanillaMissing,
    /// Vanilla's file could not be read or parsed.
    VanillaUnreadable,
}

/// How many of the bans loaded before converting count as existing Steel
/// bans: all of them where Steel's bans file existed, none where loading
/// fell back to importing vanilla's file, which is what is being converted.
pub fn existing_steel_bans(steel_file_existed: bool, loaded: usize) -> (n: usize)
    ensures
        n == (if steel_file_existed {
            loaded
        } else {
            0
        }),
{
    if steel_file_existed {
        loaded
    } else {
        0
    }
}

/// Whether the conversion may go ahead over `existing` entries: only over
/// none, or when forced.
pub fn convert_banned_ip_check(existing: usize, force: bool) -> (r: Result<(), ConvertFailure>)
    ensures
        r == (if existing != 0 && !force {
            Err(ConvertFailure::ExistingBans(existing))
        } else {
            Ok(())
        }),
{
    if existing != 0 && !force {
        return Err(ConvertFailure::ExistingBans(existing));
    }
    Ok(())
}

/// Replaces the ban list with the entries read from vanilla's file, keeping
/// the shadowban list and the whitelist; returns how many entries were
/// converted.
pub fn convert_banned_ip_apply(policy: &mut IpAccessPolicy, vanilla: VanillaBansFile) -> (r: Result<
    usize,
    ConvertFailure,
>)
    requires
        old(policy).wf(),
    ensures
        final(policy).wf(),
        final(policy).shadowbanned() == old(policy).shadowbanned(),
        final(policy).whitelist() == old(policy).whitelist(),
        match vanilla {
            VanillaBansFile::Missing => r == Err::<usize, ConvertFailure>(
                ConvertFailure::VanillaMissing,
            ) && final(policy).bans() == old(policy).bans(),
            VanillaBansFile::Unreadable => r == Err::<usize, ConvertFailure>(
                ConvertFailure::VanillaUnreadable,
            ) && final(policy).bans() == old(policy).bans(),
            VanillaBansFile::Loaded(bans) => r == Ok::<usize, ConvertFailure>(bans@.len() as usize)
                && final(policy).bans() == bans@,
        },
{
    match vanilla {
        VanillaBansFile::Missing => Err(ConvertFailure::VanillaMissing),
        VanillaBansFile::Unreadable => Err(ConvertFailure::VanillaUnreadable),
        VanillaBansFile::Loaded(bans) => {
            let count = bans.len();
            policy.replace_banned_ips(bans);
            Ok(count)
        },
    }
}

/// The ending of "entr…" in the refusal message: `y` for one entry, `ies`
/// otherwise.
pub fn entries_suffix(count: usize) -> (s: &'static str)
    ensures
        count == 1 ==> s@ == "y"@,
        count != 1 ==> s@ == "ies"@,
{
    if count == 1 {
        "y"
    } else {
        "ies"
    }
}

} // verus!
