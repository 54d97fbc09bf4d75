//! Programs that run in the background.

use vstd::prelude::*;
use crate::text::copy_of;
use crate::text::texts;

verus! {

/// The arguments that every run of `curl` begins with. On Windows it is held to TLS 1.2:
/// with a later version the `curl` that comes with Windows loses the connection to some
/// servers.
pub fn curl_command(windows: bool) -> (r: Vec<String>)
    ensures
        texts(r@) == if windows {
            seq!["--tlsv1.2"@, "--tls-max"@, "1.2"@]
        } else {
            Seq::empty()
        },
{
    let mut args: Vec<String> = Vec::new();
    if windows {
        args.push(copy_of("--tlsv1.2"));
        args.push(copy_of("--tls-max"));
        args.push(copy_of("1.2"));
    }
    assert(texts(args@) =~= if windows {
        seq!["--tlsv1.2"@, "--tls-max"@, "1.2"@]
    } else {
        Seq::empty()
    });
    args
}

} // verus!
