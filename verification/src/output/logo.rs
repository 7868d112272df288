//! The watn logo as plain text.
use vstd::prelude::*;

verus! {

/// The logo drawn with ASCII characters only.
pub open spec fn logo_text() -> Seq<char> {
    ASCII_LOGO@
}

pub const ASCII_LOGO: &'static str = r#"__      __ __ _ | |_  _ __   ___
\ \ /\ / // _` || __|| '_ \ |__ \
 \ V  V /| (_| || |_ | | | |  / /
  \_/\_/  \__,_| \__||_| |_| |_|
                              (_)"#;

pub fn ascii_logo() -> (s: &'static str)
    ensures
        s@ == logo_text(),
{
    ASCII_LOGO
}

} // verus!
