//! The `update` subcommand: how it is recognised and the batch file that reinstalls
//! the tool once the running binary has exited.
use vstd::prelude::*;

use crate::text::{str_eq, string_of};

verus! {

broadcast use vstd::string::group_string_axioms;

/// `update` is handled only when it is exactly the first argument.
pub fn should_handle_update_subcommand(args: &[String]) -> (b: bool)
    ensures
        b == (args@.len() >= 2 && args@[1]@ == "update"@),
{
    args.len() >= 2 && str_eq(args[1].as_str(), "update")
}

pub open spec fn update_bat() -> Seq<char> {
    "@echo off\r\n"@ + "timeout /t 3 /nobreak >nul\r\n"@
        + "cargo install --force --git https://github.com/cat2151/norenwake\r\n"@
        + "del \"%~f0\"\r\n"@
}

/// The batch file that waits for the tool to exit, reinstalls it and deletes itself.
pub fn update_bat_content() -> (bat: String)
    ensures
        bat@ == update_bat(),
{
    let mut bat = string_of("@echo off\r\n");
    bat.append("timeout /t 3 /nobreak >nul\r\n");
    bat.append("cargo install --force --git https://github.com/cat2151/norenwake\r\n");
    bat.append("del \"%~f0\"\r\n");
    bat
}

} // verus!
