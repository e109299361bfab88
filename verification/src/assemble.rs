use vstd::prelude::*;

use crate::errors::InstallError;
use crate::text::{ends_with_str, starts_with_str};

verus! {

/// The views of a sequence of strings.
pub open spec fn views_of(v: Seq<String>) -> Seq<Seq<char>> {
    v.map_values(|s: String| s@)
}

/// The views of the strings inside a sequence of present-or-absent fragment
/// contents, for the positions that are present.
pub open spec fn content_views_of(v: Seq<Option<String>>) -> Seq<Seq<char>> {
    v.map_values(|c: Option<String>| c.unwrap()@)
}

/// The provenance banner written above one fragment: a comment fence, the
/// fragment's path under the fragments directory, and a closing fence.
pub open spec fn banner_of(dir: Seq<char>, name: Seq<char>) -> Seq<char> {
    "--\n-- "@ + dir + "/"@ + name + "\n--\n"@
}

/// One fragment's contribution to the assembled script: its banner, its raw
/// contents, and a blank-line separator.
pub open spec fn fragment_block(dir: Seq<char>, name: Seq<char>, contents: Seq<char>) -> Seq<
    char,
> {
    banner_of(dir, name) + contents + "\n\n\n"@
}

/// The whole assembled script: the blocks of all fragments, concatenated in
/// the given order.
pub open spec fn assembled_of(
    dir: Seq<char>,
    names: Seq<Seq<char>>,
    contents: Seq<Seq<char>>,
) -> Seq<char>
    decreases names.len(),
{
    if names.len() == 0 {
        Seq::<char>::empty()
    } else {
        fragment_block(dir, names[0], contents[0]) + assembled_of(
            dir,
            names.skip(1),
            contents.skip(1),
        )
    }
}

/// Splitting the fragment list anywhere splits the assembled output at the
/// same point.
pub proof fn lemma_assembled_split(
    dir: Seq<char>,
    names: Seq<Seq<char>>,
    contents: Seq<Seq<char>>,
    k: int,
)
    requires
        names.len() == contents.len(),
        0 <= k <= names.len(),
    ensures
        assembled_of(dir, names, contents) == assembled_of(dir, names.take(k), contents.take(k))
            + assembled_of(dir, names.skip(k), contents.skip(k)),
    decreases k,
{
    if k == 0 {
        assert(names.skip(0) =~= names);
        assert(contents.skip(0) =~= contents);
        assert(Seq::<char>::empty() + assembled_of(dir, names, contents) =~= assembled_of(
            dir,
            names,
            contents,
        ));
    } else {
        lemma_assembled_split(dir, names.skip(1), contents.skip(1), k - 1);
        assert(names.skip(1).take(k - 1) =~= names.take(k).skip(1));
        assert(contents.skip(1).take(k - 1) =~= contents.take(k).skip(1));
        assert(names.skip(1).skip(k - 1) =~= names.skip(k));
        assert(contents.skip(1).skip(k - 1) =~= contents.skip(k));
        let head = fragment_block(dir, names[0], contents[0]);
        let mid = assembled_of(dir, names.take(k).skip(1), contents.take(k).skip(1));
        let tail = assembled_of(dir, names.skip(k), contents.skip(k));
        assert(names.take(k)[0] == names[0]);
        assert(contents.take(k)[0] == contents[0]);
        assert(head + (mid + tail) =~= (head + mid) + tail);
    }
}

/// Appending one more fragment appends exactly its block to the assembled
/// output.
pub proof fn lemma_assembled_snoc(
    dir: Seq<char>,
    names: Seq<Seq<char>>,
    contents: Seq<Seq<char>>,
    i: int,
)
    requires
        names.len() == contents.len(),
        0 <= i < names.len(),
    ensures
        assembled_of(dir, names.take(i + 1), contents.take(i + 1)) == assembled_of(
            dir,
            names.take(i),
            contents.take(i),
        ) + fragment_block(dir, names[i], contents[i]),
{
    lemma_assembled_split(dir, names.take(i + 1), contents.take(i + 1), i);
    assert(names.take(i + 1).take(i) =~= names.take(i));
    assert(contents.take(i + 1).take(i) =~= contents.take(i));
    let single_n = names.take(i + 1).skip(i);
    let single_c = contents.take(i + 1).skip(i);
    assert(single_n.len() == 1);
    assert(single_n[0] == names[i]);
    assert(single_c[0] == contents[i]);
    assert(assembled_of(dir, single_n, single_c) == fragment_block(dir, names[i], contents[i])
        + assembled_of(dir, single_n.skip(1), single_c.skip(1)));
    assert(fragment_block(dir, names[i], contents[i]) + Seq::<char>::empty() =~= fragment_block(
        dir,
        names[i],
        contents[i],
    ));
}

/// Assembly is deterministic: the output is a function of the fragment
/// order and the fragment contents alone, so two assemblies of the same
/// ordered fragments are byte-identical, whatever enumeration order the
/// filesystem happens to use elsewhere.
pub proof fn lemma_assemble_deterministic(
    dir: Seq<char>,
    names: Seq<Seq<char>>,
    contents: Seq<Seq<char>>,
    first: Seq<char>,
    second: Seq<char>,
)
    requires
        first == assembled_of(dir, names, contents),
        second == assembled_of(dir, names, contents),
    ensures
        first == second,
{
}

/// Where a fragment's block begins in the assembled output: the length of
/// everything assembled before it.
pub open spec fn fragment_offset(
    dir: Seq<char>,
    names: Seq<Seq<char>>,
    contents: Seq<Seq<char>>,
    i: int,
) -> int {
    assembled_of(dir, names.take(i), contents.take(i)).len() as int
}

/// Each fragment's block stands in the assembled output at its offset.
pub proof fn lemma_fragment_at_offset(
    dir: Seq<char>,
    names: Seq<Seq<char>>,
    contents: Seq<Seq<char>>,
    i: int,
)
    requires
        names.len() == contents.len(),
        0 <= i < names.len(),
    ensures
        fragment_offset(dir, names, contents, i) + fragment_block(
            dir,
            names[i],
            contents[i],
        ).len() <= assembled_of(dir, names, contents).len(),
        assembled_of(dir, names, contents).subrange(
            fragment_offset(dir, names, contents, i),
            fragment_offset(dir, names, contents, i) + fragment_block(
                dir,
                names[i],
                contents[i],
            ).len(),
        ) == fragment_block(dir, names[i], contents[i]),
{
    lemma_assembled_split(dir, names, contents, i);
    let pre = assembled_of(dir, names.take(i), contents.take(i));
    let post = assembled_of(dir, names.skip(i), contents.skip(i));
    let block = fragment_block(dir, names[i], contents[i]);
    assert(names.skip(i)[0] == names[i]);
    assert(contents.skip(i)[0] == contents[i]);
    assert(names.skip(i).skip(1) =~= names.skip(i + 1));
    assert(contents.skip(i).skip(1) =~= contents.skip(i + 1));
    assert(post == block + assembled_of(dir, names.skip(i + 1), contents.skip(i + 1)));
    assert((pre + post).subrange(pre.len() as int, pre.len() + block.len() as int) =~= block);
}

/// Order preservation: a fragment named earlier in the load order is
/// assembled wholly before one named later.
pub proof fn lemma_fragment_order(
    dir: Seq<char>,
    names: Seq<Seq<char>>,
    contents: Seq<Seq<char>>,
    i: int,
    j: int,
)
    requires
        names.len() == contents.len(),
        0 <= i < j < names.len(),
    ensures
        fragment_offset(dir, names, contents, i) + fragment_block(
            dir,
            names[i],
            contents[i],
        ).len() <= fragment_offset(dir, names, contents, j),
    decreases j - i,
{
    lemma_assembled_snoc(dir, names, contents, i);
    if j == i + 1 {
    } else {
        lemma_fragment_order(dir, names, contents, i + 1, j);
        lemma_assembled_snoc(dir, names, contents, i);
    }
}

/// Concatenates the ordered SQL fragments into one script. `names` is the
/// load order, authoritative and preserved verbatim; `contents[k]` is the
/// text read from `fragments_dir/names[k]`, or `None` where that file could
/// not be read. The first unreadable fragment aborts the whole assembly with
/// `FragmentReadError` naming it; otherwise the result is exactly the
/// concatenation of every fragment's bannered block, in order.
pub fn assemble(fragments_dir: &str, names: &Vec<String>, contents: &Vec<Option<String>>) -> (r:
    Result<String, InstallError>)
    requires
        names@.len() == contents@.len(),
    ensures
        r is Ok <==> (forall|k: int| 0 <= k < contents@.len() ==> contents@[k] is Some),
        r matches Ok(out) ==> out@ == assembled_of(
            fragments_dir@,
            views_of(names@),
            content_views_of(contents@),
        ),
        r matches Err(e) ==> (e matches InstallError::FragmentReadError(f) && exists|k: int|
            0 <= k < contents@.len() && (#[trigger] contents@[k]) is None && f@ == names@[k]@
                && (forall|j: int| 0 <= j < k ==> contents@[j] is Some)),
{
    let ghost nviews = views_of(names@);
    let ghost cviews = content_views_of(contents@);
    let n = names.len();
    let mut out = String::new();
    let mut i: usize = 0;
    proof {
        assert(out@ =~= assembled_of(fragments_dir@, nviews.take(0), cviews.take(0)));
    }
    while i < n
        invariant
            i <= n,
            n == names@.len(),
            n == contents@.len(),
            nviews == views_of(names@),
            cviews == content_views_of(contents@),
            forall|j: int| 0 <= j < i ==> contents@[j] is Some,
            out@ == assembled_of(fragments_dir@, nviews.take(i as int), cviews.take(i as int)),
        decreases n - i,
    {
        match &contents[i] {
            Option::None => {
                return Err(InstallError::FragmentReadError(names[i].clone()));
            },
            Option::Some(c) => {
                out.append("--\n-- ");
                out.append(fragments_dir);
                out.append("/");
                out.append(names[i].as_str());
                out.append("\n--\n");
                out.append(c.as_str());
                out.append("\n\n\n");
                proof {
                    lemma_assembled_snoc(fragments_dir@, nviews, cviews, i as int);
                    assert(nviews[i as int] == names@[i as int]@);
                    assert(cviews[i as int] == c@);
                    assert(out@ =~= assembled_of(
                        fragments_dir@,
                        nviews.take(i as int),
                        cviews.take(i as int),
                    ) + fragment_block(fragments_dir@, nviews[i as int], cviews[i as int]));
                }
            },
        }
        i = i + 1;
    }
    proof {
        assert(nviews.take(n as int) =~= nviews);
        assert(cviews.take(n as int) =~= cviews);
    }
    Ok(out)
}

/// A filename names an upgrade script of `ext`: the extension name, the
/// version separator, and the SQL suffix. Upgrade scripts are copied
/// verbatim, never concatenated.
pub open spec fn is_upgrade_name(name: Seq<char>, ext: Seq<char>) -> bool {
    (ext + "--"@).is_prefix_of(name) && ".sql"@.is_suffix_of(name)
}

/// Whether `filename` names an upgrade script of `extname`, as
/// `is_upgrade_name` describes.
pub fn is_upgrade_script(filename: &str, extname: &str) -> (r: bool)
    ensures
        r == is_upgrade_name(filename@, extname@),
{
    let mut prefix = String::from_str(extname);
    prefix.append("--");
    starts_with_str(filename, prefix.as_str()) && ends_with_str(filename, ".sql")
}

/// Keeps exactly the entries that name upgrade scripts of `extname`, in the
/// order they were handed in.
pub fn select_upgrade_scripts(entries: &Vec<String>, extname: &str) -> (r: Vec<String>)
    ensures
        views_of(r@) == views_of(entries@).filter(
            |name: Seq<char>| is_upgrade_name(name, extname@),
        ),
{
    let ghost pred = |name: Seq<char>| is_upgrade_name(name, extname@);
    let n = entries.len();
    let mut picked: Vec<String> = Vec::new();
    let mut i: usize = 0;
    proof {
        reveal(Seq::filter);
        assert(views_of(picked@) =~= views_of(entries@).take(0).filter(pred));
    }
    while i < n
        invariant
            i <= n,
            n == entries@.len(),
            pred == (|name: Seq<char>| is_upgrade_name(name, extname@)),
            views_of(picked@) == views_of(entries@).take(i as int).filter(pred),
        decreases n - i,
    {
        let ghost before = views_of(entries@).take(i as int);
        let ghost after = views_of(entries@).take(i as int + 1);
        if is_upgrade_script(entries[i].as_str(), extname) {
            picked.push(entries[i].clone());
        }
        proof {
            reveal(Seq::filter);
            assert(after.drop_last() =~= before);
            assert(after.last() == entries@[i as int]@);
            assert(views_of(picked@) =~= after.filter(pred));
        }
        i = i + 1;
    }
    proof {
        assert(views_of(entries@).take(n as int) =~= views_of(entries@));
    }
    picked
}

/// The filename of the versioned installable script for one extension
/// version.
pub open spec fn versioned_script(ext: Seq<char>, version: Seq<char>) -> Seq<char> {
    ext + "--"@ + version + ".sql"@
}

/// The versioned script's filename, as `versioned_script` describes.
pub fn versioned_script_name(extname: &str, version: &str) -> (r: String)
    ensures
        r@ == versioned_script(extname@, version@),
{
    let mut name = String::from_str(extname);
    name.append("--");
    name.append(version);
    name.append(".sql");
    name
}

/// The versioned script itself matches the upgrade-script pattern of its own
/// extension: the two kinds share a namespace prefix and are told apart only
/// by how they are produced.
pub proof fn lemma_versioned_is_upgrade_name(ext: Seq<char>, version: Seq<char>)
    ensures
        is_upgrade_name(versioned_script(ext, version), ext),
{
    let name = versioned_script(ext, version);
    assert((ext + "--"@) =~= name.subrange(0, ext.len() + "--"@.len() as int));
    assert(".sql"@ =~= name.subrange(
        name.len() - ".sql"@.len(),
        name.len() as int,
    ));
}

} // verus!
