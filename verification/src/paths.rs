use vstd::prelude::*;

use crate::text::starts_with_str;

verus! {

/// The path with every leading separator dropped: a relative path is left
/// unchanged, an absolute one loses its root component.
pub open spec fn relocated(s: Seq<char>) -> Seq<char>
    decreases s.len(),
{
    if s.len() > 0 && s[0] == '/' {
        relocated(s.skip(1))
    } else {
        s
    }
}

/// A relocated path never begins with a separator.
pub proof fn lemma_relocated_no_leading_separator(s: Seq<char>)
    ensures
        relocated(s).len() > 0 ==> relocated(s)[0] != '/',
    decreases s.len(),
{
    if s.len() > 0 && s[0] == '/' {
        lemma_relocated_no_leading_separator(s.skip(1));
    }
}

/// Relocation is idempotent: relocating an already-relocated path changes
/// nothing.
pub proof fn lemma_relocate_idempotent(s: Seq<char>)
    ensures
        relocated(relocated(s)) == relocated(s),
{
    lemma_relocated_no_leading_separator(s);
}

/// Converts a path into one relative to the filesystem root, so that joining
/// it under an arbitrary staging directory yields the path "as if installed
/// at that root". A relative path passes through unchanged; an absolute path
/// is stripped of its root component.
pub fn make_relative(path: &str) -> (r: String)
    ensures
        r@ == relocated(path@),
        path@.len() == 0 || path@[0] != '/' ==> r@ == path@,
        r@.len() > 0 ==> r@[0] != '/',
{
    proof {
        lemma_relocated_no_leading_separator(path@);
    }
    let len: usize = path.unicode_len();
    let mut i: usize = 0;
    proof {
        assert(path@.skip(0) =~= path@);
    }
    while i < len && path.get_char(i) == '/'
        invariant
            i <= len,
            len == path@.len(),
            relocated(path@) == relocated(path@.skip(i as int)),
        decreases len - i,
    {
        proof {
            assert(path@.skip(i as int)[0] == '/');
            assert(path@.skip(i as int).skip(1) =~= path@.skip(i as int + 1));
        }
        i = i + 1;
    }
    proof {
        assert(relocated(path@.skip(i as int)) == path@.skip(i as int));
    }
    let r = String::from_str(path.substring_char(i, len));
    proof {
        assert(r@ =~= path@.skip(i as int));
    }
    r
}

/// The destination path obtained by appending `rel` under `base`, with the
/// semantics of pushing one path onto another: an absolute `rel` replaces
/// `base` outright, and otherwise a single separator joins the two.
pub open spec fn joined(base: Seq<char>, rel: Seq<char>) -> Seq<char> {
    if rel.len() > 0 && rel[0] == '/' {
        rel
    } else if base.len() == 0 {
        rel
    } else if base[base.len() - 1] == '/' {
        base + rel
    } else {
        base + seq!['/'] + rel
    }
}

/// Joins `rel` under `base` as `joined` describes.
pub fn join_path(base: &str, rel: &str) -> (r: String)
    ensures
        r@ == joined(base@, rel@),
{
    let blen = base.unicode_len();
    let rlen = rel.unicode_len();
    if rlen > 0 && rel.get_char(0) == '/' {
        String::from_str(rel)
    } else if blen == 0 {
        String::from_str(rel)
    } else if base.get_char(blen - 1) == '/' {
        let mut out = String::from_str(base);
        out.append(rel);
        out
    } else {
        let mut out = String::from_str(base);
        out.append("/");
        out.append(rel);
        proof {
            reveal_strlit("/");
            assert(out@ =~= base@ + seq!['/'] + rel@);
        }
        out
    }
}

/// A path as shown in progress messages: when `path` lies under `base`, the
/// remainder after `base` and its separator; otherwise `path` itself.
pub open spec fn display_path(path: Seq<char>, base: Seq<char>) -> Seq<char> {
    if path == base {
        Seq::<char>::empty()
    } else if base.is_prefix_of(path) && path.len() > base.len() && path[base.len() as int]
        == '/' {
        path.skip(base.len() as int + 1)
    } else {
        path
    }
}

/// Shortens `path` for display by stripping the prefix `base`, as
/// `display_path` describes.
pub fn format_display_path(path: &str, base: &str) -> (r: String)
    ensures
        r@ == display_path(path@, base@),
{
    let plen = path.unicode_len();
    let blen = base.unicode_len();
    if starts_with_str(path, base) {
        if plen == blen {
            proof {
                assert(path@ =~= base@);
            }
            return String::new();
        }
        if path.get_char(blen) == '/' {
            proof {
                assert(path@ != base@);
            }
            let ghost rest = path@.skip(blen as int + 1);
            let r = String::from_str(path.substring_char(blen + 1, plen));
            proof {
                assert(r@ =~= path@.skip(blen as int + 1));
            }
            return r;
        }
    }
    proof {
        assert(path@ == base@ ==> base@.is_prefix_of(path@));
    }
    String::from_str(path)
}

} // verus!
