use vstd::prelude::*;
use crate::text::same_text;

verus! {

/// The file extensions of source files that are indexed.
pub open spec fn code_extensions() -> Seq<Seq<char>> {
    seq![
        "rs"@, "js"@, "ts"@, "tsx"@, "py"@, "go"@, "java"@, "c"@, "cpp"@, "h"@, "html"@, "css"@,
        "md"@,
    ]
}

/// Whether a file extension marks a source file worth indexing.
pub fn is_code_extension(ext: &str) -> (r: bool)
    ensures
        r == code_extensions().contains(ext@),
{
    let r = same_text(ext, "rs") || same_text(ext, "js") || same_text(ext, "ts") || same_text(
        ext,
        "tsx",
    ) || same_text(ext, "py") || same_text(ext, "go") || same_text(ext, "java") || same_text(
        ext,
        "c",
    ) || same_text(ext, "cpp") || same_text(ext, "h") || same_text(ext, "html") || same_text(
        ext,
        "css",
    ) || same_text(ext, "md");
    proof {
        let exts = code_extensions();
        if r {
            if ext@ == "rs"@ { assert(exts[0] == ext@); }
            if ext@ == "js"@ { assert(exts[1] == ext@); }
            if ext@ == "ts"@ { assert(exts[2] == ext@); }
            if ext@ == "tsx"@ { assert(exts[3] == ext@); }
            if ext@ == "py"@ { assert(exts[4] == ext@); }
            if ext@ == "go"@ { assert(exts[5] == ext@); }
            if ext@ == "java"@ { assert(exts[6] == ext@); }
            if ext@ == "c"@ { assert(exts[7] == ext@); }
            if ext@ == "cpp"@ { assert(exts[8] == ext@); }
            if ext@ == "h"@ { assert(exts[9] == ext@); }
            if ext@ == "html"@ { assert(exts[10] == ext@); }
            if ext@ == "css"@ { assert(exts[11] == ext@); }
            if ext@ == "md"@ { assert(exts[12] == ext@); }
        } else {
            assert forall|i: int| 0 <= i < exts.len() implies exts[i] != ext@ by {}
        }
    }
    r
}

} // verus!
