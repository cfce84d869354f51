use vstd::prelude::*;

use crate::errors::Error;
use crate::fsops::{joined_path, join_path, FsOp, FsOpV};
use crate::text::{chars_string, str_chars};
use std::io::Cursor;

verus! {

/// Declares `std::io::Cursor`, the in-memory reader the zip reader runs on.
#[verifier::external_type_specification]
#[verifier::external_body]
#[verifier::reject_recursive_types(T)]
pub struct ExCursor<T>(Cursor<T>);

/// Declares `zip::ZipArchive`, the outside crate's archive reader.
#[verifier::external_type_specification]
#[verifier::external_body]
#[verifier::reject_recursive_types(R)]
pub struct ExZipArchive<R>(zip::ZipArchive<R>);

/// What the zip reader decodes out of an archive's bytes: each entry, in
/// archive order, as its stored name, its decompressed contents, and its
/// stored Unix permission bits, if any.
pub uninterp spec fn zip_entries(bytes: Seq<u8>) -> Seq<(Seq<char>, Seq<u8>, Option<u32>)>;

/// Whether the bytes are a zip archive the reader opens at all: a
/// function of the bytes alone.
pub uninterp spec fn zip_ok(bytes: Seq<u8>) -> bool;

/// Whether entry `i` of the archive bytes decompresses without error:
/// a function of the bytes alone.
pub uninterp spec fn zip_entry_ok(bytes: Seq<u8>, i: int) -> bool;

/// The bytes open and every entry decompresses.
pub open spec fn archive_ok(bytes: Seq<u8>) -> bool {
    zip_ok(bytes) && forall|i: int| 0 <= i < zip_entries(bytes).len() ==> zip_entry_ok(bytes, i)
}

/// The entries an open reader holds.
pub uninterp spec fn entries_of(a: zip::ZipArchive<Cursor<Vec<u8>>>) -> Seq<
    (Seq<char>, Seq<u8>, Option<u32>),
>;

/// Which of an open reader's entries can be read out whole.
pub uninterp spec fn entry_readable(a: zip::ZipArchive<Cursor<Vec<u8>>>, i: int) -> bool;

/// Relies on `zip::ZipArchive::new`: reading the central directory of an
/// in-memory archive succeeds or fails as a function of its bytes alone,
/// and so does decompressing each entry of the opened reader.
#[verifier::external_body]
pub fn open_archive(bytes: Vec<u8>) -> (r: Result<zip::ZipArchive<Cursor<Vec<u8>>>, Error>)
    ensures
        r is Ok <==> zip_ok(bytes@),
        r matches Ok(a) ==> entries_of(a) == zip_entries(bytes@),
        r matches Ok(a) ==> forall|i: int| entry_readable(a, i) == zip_entry_ok(bytes@, i),
        r matches Err(e) ==> e == Error::Archive,
{
    match zip::ZipArchive::new(Cursor::new(bytes)) {
        Ok(a) => Ok(a),
        Err(_) => Err(Error::Archive),
    }
}

/// Relies on `zip::ZipArchive::len`: the number of entries.
#[verifier::external_body]
pub fn archive_len(a: &zip::ZipArchive<Cursor<Vec<u8>>>) -> (n: usize)
    ensures
        n == entries_of(*a).len(),
{
    a.len()
}

/// One zip entry handed out as plain values.
pub struct RawEntry {
    pub name: String,
    pub data: Vec<u8>,
    pub unix_mode: Option<u32>,
}

/// Relies on `zip::ZipArchive::by_index` and the entry's `std::io::Read`
/// impl: entry `i`, decompressed. Whether an entry reads out whole does
/// not depend on what was read before, so `entry_readable` is preserved.
#[verifier::external_body]
pub fn read_entry(a: &mut zip::ZipArchive<Cursor<Vec<u8>>>, i: usize) -> (r: Result<
    RawEntry,
    Error,
>)
    requires
        i < entries_of(*old(a)).len(),
    ensures
        entries_of(*final(a)) == entries_of(*old(a)),
        forall|j: int| entry_readable(*final(a), j) == entry_readable(*old(a), j),
        r is Ok <==> entry_readable(*old(a), i as int),
        r matches Ok(e) ==> entries_of(*old(a))[i as int] == (e.name@, e.data@, e.unix_mode),
        r matches Err(e) ==> e == Error::Archive,
{
    let mut f = match a.by_index(i) {
        Ok(f) => f,
        Err(_) => return Err(Error::Archive),
    };
    let name = f.name().to_owned();
    let unix_mode = f.unix_mode();
    let mut data = Vec::new();
    match std::io::Read::read_to_end(&mut f, &mut data) {
        Ok(_) => Ok(RawEntry { name, data, unix_mode }),
        Err(_) => Err(Error::Archive),
    }
}

// ------------------------------------------------------------------
// Entry-name sanitization
// ------------------------------------------------------------------

/// The `/`-separated pieces of an entry name (empty pieces included).
pub open spec fn split_slash(s: Seq<char>) -> Seq<Seq<char>>
    decreases s.len(),
{
    if s.len() == 0 {
        seq![Seq::<char>::empty()]
    } else {
        let rest = split_slash(s.skip(1));
        if s[0] == '/' {
            seq![Seq::<char>::empty()] + rest
        } else {
            seq![seq![s[0]] + rest[0]] + rest.skip(1)
        }
    }
}

/// A piece worth keeping: non-empty and not a current- or
/// parent-directory reference.
pub open spec fn keep_comp(c: Seq<char>) -> bool {
    c.len() > 0 && c != "."@ && c != ".."@
}

pub open spec fn kept(cs: Seq<Seq<char>>) -> Seq<Seq<char>>
    decreases cs.len(),
{
    if cs.len() == 0 {
        Seq::<Seq<char>>::empty()
    } else if keep_comp(cs[0]) {
        seq![cs[0]] + kept(cs.skip(1))
    } else {
        kept(cs.skip(1))
    }
}

/// An attacker-controlled entry name reduced to the path components that
/// may be written under the destination: empty, `.` and `..` pieces are
/// neutralized by dropping them.
pub open spec fn sanitized_components(name: Seq<char>) -> Seq<Seq<char>> {
    kept(split_slash(name))
}

proof fn lemma_split_slash_shape(s: Seq<char>)
    ensures
        split_slash(s).len() >= 1,
        forall|i: int, k: int|
            0 <= i < split_slash(s).len() && 0 <= k < split_slash(s)[i].len()
                ==> split_slash(s)[i][k] != '/',
    decreases s.len(),
{
    if s.len() > 0 {
        lemma_split_slash_shape(s.skip(1));
    }
}

proof fn lemma_kept_props(cs: Seq<Seq<char>>)
    ensures
        forall|i: int|
            0 <= i < kept(cs).len() ==> #[trigger] keep_comp(kept(cs)[i]) && exists|j: int|
                0 <= j < cs.len() && cs[j] == kept(cs)[i],
    decreases cs.len(),
{
    if cs.len() > 0 {
        lemma_kept_props(cs.skip(1));
        assert forall|i: int| 0 <= i < kept(cs).len() implies #[trigger] keep_comp(kept(cs)[i])
            && exists|j: int| 0 <= j < cs.len() && cs[j] == kept(cs)[i] by {
            if keep_comp(cs[0]) && i == 0 {
                assert(cs[0] == kept(cs)[0]);
            } else {
                let i2 = if keep_comp(cs[0]) {
                    i - 1
                } else {
                    i
                };
                assert(kept(cs)[i] == kept(cs.skip(1))[i2]);
                assert(0 <= i2 < kept(cs.skip(1)).len());
                assert(keep_comp(kept(cs.skip(1))[i2]));
                let j2 = choose|j: int| 0 <= j < cs.skip(1).len() && cs.skip(1)[j] == kept(
                    cs.skip(1),
                )[i2];
                assert(cs.skip(1)[j2] == cs[j2 + 1]);
                assert(cs[j2 + 1] == kept(cs)[i]);
            }
        }
    }
}

/// No sanitized component can escape the destination directory: each one
/// is a plain name — never empty, never `.` or `..`, and holding no
/// separator — so the joined path stays inside the destination.
pub proof fn lemma_sanitized_components_safe(name: Seq<char>)
    ensures
        forall|i: int|
            0 <= i < sanitized_components(name).len() ==> {
                let c = #[trigger] sanitized_components(name)[i];
                c.len() > 0 && c != "."@ && c != ".."@ && forall|k: int|
                    0 <= k < c.len() ==> c[k] != '/'
            },
{
    lemma_split_slash_shape(name);
    lemma_kept_props(split_slash(name));
    assert forall|i: int| 0 <= i < sanitized_components(name).len() implies {
        let c = #[trigger] sanitized_components(name)[i];
        c.len() > 0 && c != "."@ && c != ".."@ && forall|k: int| 0 <= k < c.len() ==> c[k] != '/'
    } by {
        let c = sanitized_components(name)[i];
        assert(keep_comp(c));
        let j = choose|j: int|
            0 <= j < split_slash(name).len() && split_slash(name)[j] == kept(split_slash(name))[i];
        assert forall|k: int| 0 <= k < c.len() implies c[k] != '/' by {
            assert(split_slash(name)[j][k] != '/');
        }
    }
}

/// Splits `name` on `/` and drops the empty, `.` and `..` pieces.
pub fn sanitize_entry_name(name: &str) -> (r: Vec<String>)
    ensures
        r.deep_view() == sanitized_components(name@),
{
    let chars = str_chars(name);
    let pieces = split_exec(&chars, 0);
    let mut out: Vec<String> = Vec::new();
    let mut i: usize = 0;
    proof {
        assert(pieces.deep_view().skip(0) =~= pieces.deep_view());
        assert(out.deep_view() =~~= Seq::<Seq<char>>::empty());
        assert(out.deep_view() + kept(pieces.deep_view().skip(0)) =~~= kept(pieces.deep_view()));
    }
    while i < pieces.len()
        invariant
            i <= pieces@.len(),
            pieces.deep_view().len() == pieces@.len(),
            forall|k: int| 0 <= k < pieces@.len() ==> pieces.deep_view()[k] == pieces@[k]@,
            out.deep_view() + kept(pieces.deep_view().skip(i as int)) == kept(pieces.deep_view()),
        decreases pieces.len() - i,
    {
        let ghost pre = out.deep_view();
        let ghost restv = pieces.deep_view().skip(i as int);
        proof {
            assert(restv[0] == pieces.deep_view()[i as int]);
            assert(restv.skip(1) =~= pieces.deep_view().skip(i + 1));
        }
        let p = &pieces[i];
        if p.len() > 0 && !(p.len() == 1 && p[0] == '.') && !(p.len() == 2 && p[0] == '.' && p[1]
            == '.') {
            proof {
                reveal_strlit(".");
                reveal_strlit("..");
                assert(p@ != "."@ && p@ != ".."@) by {
                    if p@.len() == 1 && p@ == "."@ {
                        assert(p@[0] == '.');
                    }
                    if p@.len() == 2 && p@ == ".."@ {
                        assert(p@[0] == '.' && p@[1] == '.');
                    }
                }
                assert(keep_comp(restv[0]));
                assert(kept(restv) == seq![restv[0]] + kept(restv.skip(1)));
            }
            out.push(chars_string(p));
            proof {
                assert(out.deep_view() =~~= pre.push(restv[0]));
                assert(pre.push(restv[0]) + kept(pieces.deep_view().skip(i + 1)) =~= pre + (seq![
                    restv[0],
                ] + kept(restv.skip(1))));
            }
        } else {
            proof {
                reveal_strlit(".");
                reveal_strlit("..");
                assert(!keep_comp(restv[0])) by {
                    if p@.len() == 1 && p@[0] == '.' {
                        assert(p@ =~= "."@);
                    }
                    if p@.len() == 2 && p@[0] == '.' && p@[1] == '.' {
                        assert(p@ =~= ".."@);
                    }
                }
                assert(kept(restv) == kept(restv.skip(1)));
            }
        }
        i = i + 1;
    }
    proof {
        assert(pieces.deep_view().skip(i as int) =~= Seq::<Seq<char>>::empty());
        assert(kept(Seq::<Seq<char>>::empty()) == Seq::<Seq<char>>::empty());
        assert(out.deep_view() =~~= out.deep_view() + kept(Seq::<Seq<char>>::empty()));
        assert(out.deep_view() == kept(pieces.deep_view()));
        assert(chars@.skip(0) =~= chars@);
        assert(pieces.deep_view() == split_slash(name@));
    }
    out
}

/// The `/`-separated pieces of `s[i..]`.
fn split_exec(s: &Vec<char>, i: usize) -> (r: Vec<Vec<char>>)
    requires
        i <= s@.len(),
    ensures
        r.deep_view() == split_slash(s@.skip(i as int)),
    decreases s@.len() - i,
{
    if i == s.len() {
        let mut r: Vec<Vec<char>> = Vec::new();
        r.push(Vec::new());
        proof {
            assert(s@.skip(i as int) =~= Seq::<char>::empty());
            assert(r.deep_view() =~~= split_slash(s@.skip(i as int)));
        }
        r
    } else {
        let ghost tail = s@.skip(i as int);
        proof {
            assert(tail.len() > 0 && tail[0] == s@[i as int]);
            assert(tail.skip(1) =~= s@.skip(i + 1));
        }
        let mut rest = split_exec(s, i + 1);
        proof {
            lemma_split_slash_shape(s@.skip(i + 1));
            assert(rest@.len() == rest.deep_view().len());
        }
        if s[i] == '/' {
            rest.insert(0, Vec::new());
            proof {
                assert(split_slash(tail) == seq![Seq::<char>::empty()] + split_slash(tail.skip(1)));
                assert(rest.deep_view() =~~= seq![Seq::<char>::empty()] + split_slash(
                    s@.skip(i + 1),
                ));
            }
            rest
        } else {
            let ghost restv = rest.deep_view();
            let mut first = rest.remove(0);
            first.insert(0, s[i]);
            rest.insert(0, first);
            proof {
                assert(split_slash(tail) == seq![seq![tail[0]] + split_slash(tail.skip(1))[0]]
                    + split_slash(tail.skip(1)).skip(1));
                assert(first@ =~= seq![s@[i as int]] + restv[0]);
                assert(rest.deep_view() =~~= seq![seq![s@[i as int]] + restv[0]] + restv.skip(1));
            }
            rest
        }
    }
}

// ------------------------------------------------------------------
// The extraction plan
// ------------------------------------------------------------------

/// The filesystem mutations extraction performs for one entry: an entry
/// name ending in `/` becomes a directory, any other entry a file write
/// carrying the entry's bytes and mode; entries whose name sanitizes away
/// entirely are skipped.
pub open spec fn entry_plan(dest: Seq<char>, e: (Seq<char>, Seq<u8>, Option<u32>)) -> Seq<FsOpV> {
    let comps = sanitized_components(e.0);
    if comps.len() == 0 {
        Seq::<FsOpV>::empty()
    } else if e.0.len() > 0 && e.0.last() == '/' {
        seq![FsOpV::MkDirAll(joined_path(dest, comps))]
    } else {
        seq![FsOpV::WriteFile(joined_path(dest, comps), e.1, e.2)]
    }
}

/// The whole archive's extraction plan, entry by entry, in order.
pub open spec fn extract_plan_spec(dest: Seq<char>, entries: Seq<(Seq<char>, Seq<u8>, Option<u32>)>) -> Seq<
    FsOpV,
>
    decreases entries.len(),
{
    if entries.len() == 0 {
        Seq::<FsOpV>::empty()
    } else {
        entry_plan(dest, entries[0]) + extract_plan_spec(dest, entries.skip(1))
    }
}

/// The path an operation of the extraction plan touches.
pub open spec fn plan_op_path(op: FsOpV) -> Seq<char> {
    match op {
        FsOpV::MkDirAll(p) => p,
        FsOpV::WriteFile(p, _, _) => p,
        FsOpV::WriteText(p, _) => p,
        FsOpV::RemoveTree(p) => p,
        FsOpV::CopyFile(from, _) => from,
    }
}

/// Law: extraction never writes outside the destination directory,
/// whatever the archive holds: every operation of the plan touches a
/// path that begins with the destination and a separator.
pub proof fn lemma_extract_plan_stays_inside(
    dest: Seq<char>,
    entries: Seq<(Seq<char>, Seq<u8>, Option<u32>)>,
)
    ensures
        forall|i: int|
            0 <= i < extract_plan_spec(dest, entries).len() ==> crate::fsops::is_path_prefix(
                dest + "/"@,
                plan_op_path(#[trigger] extract_plan_spec(dest, entries)[i]),
            ),
    decreases entries.len(),
{
    if entries.len() > 0 {
        lemma_extract_plan_stays_inside(dest, entries.skip(1));
        let head = entry_plan(dest, entries[0]);
        let comps = sanitized_components(entries[0].0);
        if comps.len() > 0 {
            crate::fsops::lemma_joined_path_prefix(dest, comps);
        }
        assert forall|i: int| 0 <= i < extract_plan_spec(dest, entries).len() implies
            crate::fsops::is_path_prefix(
            dest + "/"@,
            plan_op_path(#[trigger] extract_plan_spec(dest, entries)[i]),
        ) by {
            if i < head.len() {
                assert(extract_plan_spec(dest, entries)[i] == head[i]);
            } else {
                assert(extract_plan_spec(dest, entries)[i] == extract_plan_spec(
                    dest,
                    entries.skip(1),
                )[i - head.len()]);
            }
        }
    }
}

proof fn lemma_extract_plan_push(
    dest: Seq<char>,
    entries: Seq<(Seq<char>, Seq<u8>, Option<u32>)>,
    e: (Seq<char>, Seq<u8>, Option<u32>),
)
    ensures
        extract_plan_spec(dest, entries.push(e)) == extract_plan_spec(dest, entries) + entry_plan(
            dest,
            e,
        ),
    decreases entries.len(),
{
    if entries.len() == 0 {
        assert(entries.push(e)[0] == e);
        assert(entries.push(e).skip(1) =~= Seq::<(Seq<char>, Seq<u8>, Option<u32>)>::empty());
        assert(extract_plan_spec(dest, entries.push(e)) == entry_plan(dest, e)
            + extract_plan_spec(dest, Seq::<(Seq<char>, Seq<u8>, Option<u32>)>::empty()));
        assert(extract_plan_spec(dest, Seq::<(Seq<char>, Seq<u8>, Option<u32>)>::empty())
            =~= Seq::<FsOpV>::empty());
        assert(extract_plan_spec(dest, entries) =~= Seq::<FsOpV>::empty());
        assert(extract_plan_spec(dest, entries.push(e)) =~= extract_plan_spec(dest, entries)
            + entry_plan(dest, e));
    } else {
        assert(entries.push(e)[0] == entries[0]);
        assert(entries.push(e).skip(1) =~= entries.skip(1).push(e));
        assert(extract_plan_spec(dest, entries.push(e)) == entry_plan(dest, entries[0])
            + extract_plan_spec(dest, entries.skip(1).push(e)));
        assert(extract_plan_spec(dest, entries) == entry_plan(dest, entries[0])
            + extract_plan_spec(dest, entries.skip(1)));
        lemma_extract_plan_push(dest, entries.skip(1), e);
        assert(extract_plan_spec(dest, entries.push(e)) =~= extract_plan_spec(dest, entries)
            + entry_plan(dest, e));
    }
}

/// Turns every entry of an open archive into its filesystem operations
/// under `dest`, preserving archive order. Succeeds exactly when every
/// entry of the reader decompresses.
pub fn extract_plan(a: &mut zip::ZipArchive<Cursor<Vec<u8>>>, dest: &str) -> (r: Result<
    Vec<FsOp>,
    Error,
>)
    ensures
        entries_of(*final(a)) == entries_of(*old(a)),
        forall|j: int| entry_readable(*final(a), j) == entry_readable(*old(a), j),
        r is Ok <==> (forall|i: int|
            0 <= i < entries_of(*old(a)).len() ==> entry_readable(*old(a), i)),
        r matches Ok(ops) ==> ops.deep_view() == extract_plan_spec(dest@, entries_of(*old(a))),
        r matches Err(e) ==> e == Error::Archive,
{
    let n = archive_len(a);
    let mut ops: Vec<FsOp> = Vec::new();
    let mut i: usize = 0;
    proof {
        assert(entries_of(*a).take(0) =~= Seq::<(Seq<char>, Seq<u8>, Option<u32>)>::empty());
    }
    while i < n
        invariant
            i <= n,
            n == entries_of(*a).len(),
            entries_of(*a) == entries_of(*old(a)),
            forall|j: int| entry_readable(*a, j) == entry_readable(*old(a), j),
            forall|j: int| 0 <= j < i ==> entry_readable(*old(a), j),
            ops.deep_view() == extract_plan_spec(dest@, entries_of(*a).take(i as int)),
        decreases n - i,
    {
        let ghost entries = entries_of(*a);
        let entry = match read_entry(a, i) {
            Ok(e) => e,
            Err(e) => {
                proof {
                    assert(!entry_readable(*old(a), i as int));
                }
                return Err(e);
            },
        };
        let comps = sanitize_entry_name(entry.name.as_str());
        let ghost pre = ops.deep_view();
        if comps.len() > 0 {
            let path = join_path(dest, &comps);
            let name_chars = str_chars(entry.name.as_str());
            let is_dir = name_chars.len() > 0 && name_chars[name_chars.len() - 1] == '/';
            if is_dir {
                ops.push(FsOp::MkDirAll(path));
            } else {
                ops.push(FsOp::WriteFile(path, entry.data, entry.unix_mode));
            }
            proof {
                assert(ops.deep_view() =~= pre.push(entry_plan(dest@, entries[i as int])[0]));
                assert(ops.deep_view() =~= pre + entry_plan(dest@, entries[i as int]));
            }
        } else {
            proof {
                assert(entry_plan(dest@, entries[i as int]) =~= Seq::<FsOpV>::empty());
                assert(ops.deep_view() =~= pre + entry_plan(dest@, entries[i as int]));
            }
        }
        proof {
            lemma_extract_plan_push(dest@, entries.take(i as int), entries[i as int]);
            assert(entries.take(i + 1) =~= entries.take(i as int).push(entries[i as int]));
        }
        i = i + 1;
    }
    proof {
        assert(entries_of(*a).take(n as int) =~= entries_of(*a));
    }
    Ok(ops)
}

} // verus!
