//! Outbound wire commands. Commands are plain text, one per line:
//! `get-entries`, `select-entry:<id>`, `remove-entry:<id>`, `clear`, `quit`.
use vstd::prelude::*;
use vstd::string::StringExecFns;
use crate::text::{dec_digits, decimal_string};

verus! {

/// The text of the command asking for a fresh snapshot.
pub open spec fn get_entries_cmd() -> Seq<char> {
    "get-entries"@
}

/// The text of the command selecting the entry with this id.
pub open spec fn select_cmd(id: nat) -> Seq<char> {
    "select-entry:"@ + dec_digits(id)
}

/// The text of the command removing the entry with this id.
pub open spec fn remove_cmd(id: nat) -> Seq<char> {
    "remove-entry:"@ + dec_digits(id)
}

/// The text of the command clearing all removable entries.
pub open spec fn clear_cmd() -> Seq<char> {
    "clear"@
}

/// The text of the command asking the backend to exit.
pub open spec fn quit_cmd() -> Seq<char> {
    "quit"@
}

/// Builds the snapshot-request command.
pub fn get_entries_command() -> (r: String)
    ensures
        r@ == get_entries_cmd(),
{
    String::from_str("get-entries")
}

/// Builds the selection command for `id`.
pub fn select_command(id: usize) -> (r: String)
    ensures
        r@ == select_cmd(id as nat),
{
    String::from_str("select-entry:").concat(decimal_string(id as u64).as_str())
}

/// Builds the removal command for `id`.
pub fn remove_command(id: usize) -> (r: String)
    ensures
        r@ == remove_cmd(id as nat),
{
    String::from_str("remove-entry:").concat(decimal_string(id as u64).as_str())
}

/// Builds the clear command.
pub fn clear_command() -> (r: String)
    ensures
        r@ == clear_cmd(),
{
    String::from_str("clear")
}

/// Builds the quit command.
pub fn quit_command() -> (r: String)
    ensures
        r@ == quit_cmd(),
{
    String::from_str("quit")
}

} // verus!
