//! The development file server's error pages: a minimal, self-contained HTML
//! document carrying a status title and a detail line.  The surrounding
//! request handling does network and file I/O and lives with the caller.

use vstd::prelude::*;
use vstd::string::*;
use vstd::utf8::encode_utf8;

verus! {

/// The development file server: serves files under one directory.
pub struct Server {
    /// The directory the server hands files out of.
    pub dir: String,
}

/// The error page for a status title and a detail line.
pub open spec fn error_page(title: Seq<char>, detail: Seq<char>) -> Seq<char> {
    "\n            <!DOCTYPE html>\n            <html>\n                <head>\n                    <meta charset=\"UTF-8\">\n                    <style>body { font-family: sans-serif; } main { margin: auto; padding: 20px; width: fit-content; }</style>\n                </head>\n                <body>\n                    <main>\n                        <h1>"@
        + title + "</h1>\n                        "@ + detail
        + "\n                    </main>\n                </body>\n            </html>\n        "@
}

impl Server {
    /// Builds the error page body for a status title and a detail line.
    pub fn error_message(title: &str, detail: &str) -> (r: Vec<u8>)
        ensures
            r@ == encode_utf8(error_page(title@, detail@)),
    {
        let mut s = String::from_str(
            "\n            <!DOCTYPE html>\n            <html>\n                <head>\n                    <meta charset=\"UTF-8\">\n                    <style>body { font-family: sans-serif; } main { margin: auto; padding: 20px; width: fit-content; }</style>\n                </head>\n                <body>\n                    <main>\n                        <h1>",
        );
        s.append(title);
        s.append("</h1>\n                        ");
        s.append(detail);
        s.append(
            "\n                    </main>\n                </body>\n            </html>\n        ",
        );
        proof {
            assert(s@ =~= error_page(title@, detail@));
        }
        let r = vstd::slice::slice_to_vec(s.as_str().as_bytes());
        r
    }
}

} // verus!
