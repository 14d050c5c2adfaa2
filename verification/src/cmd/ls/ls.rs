//! The entry point of `ls`: from the arguments to what is asked for.

use vstd::prelude::*;
use vstd::string::*;
use crate::cmd::ls::ls_config::{
    LsConfig,
    LsConfigView,
    invalid_option_text,
    letter_given,
    select,
    unknown_from,
};
use crate::text::texts;

verus! {

/// The status with which `ls` gives up on an option it does not know.
pub const INVALID_OPTION: i32 = 2;

/// What `args` ask of `ls`, or the complaint about the first option letter
/// that it does not know.  Arguments that start with a dash are options,
/// the others are operands; without an operand the current directory is
/// listed.
pub fn run_ls(args: &Vec<String>) -> (result: Result<LsConfig, String>)
    ensures
        match unknown_from(select(texts(args@), true), 0) {
            Some(letter) => result is Err && result->Err_0@ == invalid_option_text(letter),
            None => result is Ok && result->Ok_0@ == (LsConfigView {
                a_flag_set: letter_given(
                    select(texts(args@), true),
                    'a',
                    select(texts(args@), true).len() as int,
                ),
                l_flag_set: letter_given(
                    select(texts(args@), true),
                    'l',
                    select(texts(args@), true).len() as int,
                ),
                f_flag_set: letter_given(
                    select(texts(args@), true),
                    'F',
                    select(texts(args@), true).len() as int,
                ),
                target_paths: if select(texts(args@), false).len() == 0 {
                    seq![seq!['.']]
                } else {
                    select(texts(args@), false)
                },
                target_files: Seq::empty(),
                target_dirs: Seq::empty(),
                status_code: 0,
                flags: select(texts(args@), true),
                num_args: select(texts(args@), false).len() as usize,
            }),
        },
{
    let mut config = LsConfig::new(args);
    match config.parse() {
        Ok(()) => Ok(config),
        Err(message) => Err(message),
    }
}

} // verus!
