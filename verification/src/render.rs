//! Where the presenting shader library lies on disk.

use vstd::prelude::*;
use vstd::string::StrSliceExecFns;

verus! {

/// The path `name` taken from the directory `dir`: `name` itself if it starts
/// at the root, and otherwise `dir` and `name` with one separator between them.
pub open spec fn joined(dir: Seq<char>, name: Seq<char>) -> Seq<char> {
    if name.len() > 0 && name[0] == '/' {
        name
    } else if dir.len() == 0 || dir.last() == '/' {
        dir + name
    } else {
        dir + seq!['/'] + name
    }
}

/// `String::push_str`: afterwards the string holds what it held before,
/// followed by the characters of `t`.
#[verifier::external_body]
fn push_text(s: &mut String, t: &str)
    ensures
        final(s)@ == old(s)@ + t@,
{
    s.push_str(t);
}

/// The path of the shader library `metal_lib_name` below `manifest_dir`.
pub fn get_metal_lib(manifest_dir: &str, metal_lib_name: &str) -> (r: String)
    ensures
        r@ == joined(manifest_dir@, metal_lib_name@),
{
    let mut out = String::new();
    let n: usize = metal_lib_name.unicode_len();
    if n > 0 && metal_lib_name.get_char(0) == '/' {
        push_text(&mut out, metal_lib_name);
        assert(out@ =~= metal_lib_name@);
        return out;
    }
    let d: usize = manifest_dir.unicode_len();
    push_text(&mut out, manifest_dir);
    assert(out@ =~= manifest_dir@);
    if d > 0 && manifest_dir.get_char(d - 1) != '/' {
        push_text(&mut out, "/");
        proof {
            reveal_strlit("/");
            assert("/"@ =~= seq!['/']);
        }
    }
    push_text(&mut out, metal_lib_name);
    out
}

} // verus!
