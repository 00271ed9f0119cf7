//! File names made safe for the local disk.

use vstd::prelude::*;
use crate::text::{alphanumeric, is_alphanumeric, owned, same_text, to_chars};

verus! {

/// A character that may stand in a file name as it is, a dot where `dots` allows it;
/// anything else becomes an underscore.
pub open spec fn safe_char(c: char, dots: bool) -> char {
    if alphanumeric(c) || c == '-' || c == '_' || (dots && c == '.') {
        c
    } else {
        '_'
    }
}

/// A name with every unsafe character replaced.
pub open spec fn cleaned(name: Seq<char>, dots: bool) -> Seq<char> {
    name.map_values(|c: char| safe_char(c, dots))
}

/// A name with every unsafe character replaced.
fn clean(name: &str, dots: bool) -> (r: String)
    ensures
        r@ == cleaned(name@, dots),
{
    let v = to_chars(name);
    let mut out = String::new();
    let mut i: usize = 0;
    while i < v.len()
        invariant
            v@ == name@,
            i <= v@.len(),
            out@ == cleaned(name@.take(i as int), dots),
        decreases v@.len() - i,
    {
        let c = v[i];
        let ghost before = out@;
        if is_alphanumeric(c) || c == '-' || c == '_' || (dots && c == '.') {
            out.push(c);
        } else {
            out.push('_');
        }
        proof {
            assert(out@ == before.push(safe_char(c, dots)));
            assert(cleaned(name@.take(i + 1), dots) =~= cleaned(name@.take(i as int), dots).push(
                safe_char(c, dots),
            ));
        }
        i += 1;
    }
    assert(name@.take(i as int) =~= name@);
    out
}

/// A file name for an exported item: letters, digits, `-` and `_`; never empty.
pub fn sanitize_filename(name: &str) -> (r: String)
    ensures
        r@ == (if name@.len() == 0 {
            "filesec"@
        } else {
            cleaned(name@, false)
        }),
{
    let c = clean(name, false);
    if c.as_str().is_empty() {
        owned("filesec")
    } else {
        c
    }
}

/// The name given to a checked-out file.
pub open spec fn safe_leaf(name: Seq<char>) -> Seq<char> {
    let c = cleaned(name, true);
    if c.len() == 0 || c == "."@ || c == ".."@ {
        "file"@
    } else {
        c
    }
}

/// A filename leaf for a checkout file, with the extension kept (dots stay) so that
/// the right application opens it. Path separators and other oddities become `_`.
pub fn sanitize_leaf(name: &str) -> (r: String)
    ensures
        r@ == safe_leaf(name@),
{
    let c = clean(name, true);
    if c.as_str().is_empty() || same_text(&c, ".") || same_text(&c, "..") {
        owned("file")
    } else {
        c
    }
}

/// A sanitized leaf names a file in its own folder: it is not empty, holds no
/// separator, and is neither `.` nor `..`.
pub proof fn law_safe_leaf_stays_in_its_folder(name: Seq<char>)
    ensures
        safe_leaf(name).len() > 0,
        !safe_leaf(name).contains('/'),
        !safe_leaf(name).contains('\\'),
        safe_leaf(name) != "."@,
        safe_leaf(name) != ".."@,
{
    reveal_strlit("file");
    reveal_strlit(".");
    reveal_strlit("..");
    let c = cleaned(name, true);
    assert forall|i: int| 0 <= i < c.len() implies c[i] != '/' && c[i] != '\\' by {
        assert(c[i] == safe_char(name[i], true));
    }
    assert("file"@[0] != '.');
}

/// A file name for export keeps letters, digits, dashes and underscores where they are and
/// has an underscore for everything else; without a name it is called after the application.
pub proof fn law_export_names_keep_what_is_safe(name: &str, r: String, i: int)
    requires
        call_ensures(sanitize_filename, (name,), r),
    ensures
        name@.len() == 0 ==> r@ == "filesec"@,
        name@.len() > 0 ==> r@.len() == name@.len(),
        0 <= i < name@.len() ==> r@[i] == (if alphanumeric(name@[i]) || name@[i] == '-' || name@[i]
            == '_' {
            name@[i]
        } else {
            '_'
        }),
{
}

/// The name of a checked-out file keeps its dots too, so its extension, and is never one that
/// leads elsewhere.
pub proof fn law_checked_out_names_keep_their_extension(name: &str, r: String, i: int)
    requires
        call_ensures(sanitize_leaf, (name,), r),
    ensures
        r@.len() > 0 && !r@.contains('/') && !r@.contains('\\') && r@ != "."@ && r@ != ".."@,
        name@.len() > 2 ==> r@.len() == name@.len(),
        name@.len() > 2 && 0 <= i < name@.len() ==> r@[i] == (if alphanumeric(name@[i]) || name@[i]
            == '-' || name@[i] == '_' || name@[i] == '.' {
            name@[i]
        } else {
            '_'
        }),
{
    law_safe_leaf_stays_in_its_folder(name@);
    reveal_strlit(".");
    reveal_strlit("..");
}

} // verus!
