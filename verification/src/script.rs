//! What became of a script that an interpreter was given to run.

use vstd::prelude::*;
use vstd::utf8::*;

use crate::link;

verus! {

/// Calls [`String::from_utf8`]. Trusted: it gives the text that the bytes encode
/// where they are valid UTF-8, and fails where they are not.
#[verifier::external_body]
fn decode(bytes: Vec<u8>) -> (r: Option<String>)
    ensures
        r is Some <==> valid_utf8(bytes@),
        r is Some ==> r->0@ == decode_utf8(bytes@),
{
    String::from_utf8(bytes).ok()
}

/// What a script printed, or why it failed, from how its process ended: whether
/// it succeeded, and what it wrote to standard output and standard error. Of the
/// two only the one that is looked at has to be valid UTF-8.
pub fn script_result(success: bool, stdout: Vec<u8>, stderr: Vec<u8>) -> (r: Result<String, String>)
    requires
        success ==> valid_utf8(stdout@),
        !success ==> valid_utf8(stderr@),
    ensures
        link::text_result_view(r) == if success {
            Ok(decode_utf8(stdout@))
        } else {
            Err("python script failed with stderr:\n\n"@ + decode_utf8(stderr@))
        },
{
    if success {
        Ok(decode(stdout).unwrap())
    } else {
        let mut msg: String = "python script failed with stderr:\n\n".to_owned();
        msg.append(decode(stderr).unwrap().as_str());
        Err(msg)
    }
}

} // verus!
