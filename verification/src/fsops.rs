use vstd::prelude::*;

verus! {

/// One filesystem mutation of a pipeline plan. The surrounding program
/// executes these in order, aborting at the first failure; the two write
/// operations create the ancestor directories of their path as needed.
pub enum FsOp {
    MkDirAll(String),
    WriteFile(String, Vec<u8>, Option<u32>),
    WriteText(String, String),
    RemoveTree(String),
    CopyFile(String, String),
}

/// The mathematical image of an `FsOp`.
pub enum FsOpV {
    MkDirAll(Seq<char>),
    WriteFile(Seq<char>, Seq<u8>, Option<u32>),
    WriteText(Seq<char>, Seq<char>),
    RemoveTree(Seq<char>),
    CopyFile(Seq<char>, Seq<char>),
}

impl View for FsOp {
    type V = FsOpV;

    open spec fn view(&self) -> FsOpV {
        match self {
            FsOp::MkDirAll(p) => FsOpV::MkDirAll(p@),
            FsOp::WriteFile(p, d, m) => FsOpV::WriteFile(p@, d@, *m),
            FsOp::WriteText(p, t) => FsOpV::WriteText(p@, t@),
            FsOp::RemoveTree(p) => FsOpV::RemoveTree(p@),
            FsOp::CopyFile(from, to) => FsOpV::CopyFile(from@, to@),
        }
    }
}

impl DeepView for FsOp {
    type V = FsOpV;

    open spec fn deep_view(&self) -> FsOpV {
        self.view()
    }
}

/// The contents of the last file write to `path` in the plan, if any —
/// the last write is the one that survives on disk.
pub open spec fn find_write_spec(ops: Seq<FsOpV>, path: Seq<char>) -> Option<Seq<u8>>
    decreases ops.len(),
{
    if ops.len() == 0 {
        None
    } else {
        match find_write_spec(ops.skip(1), path) {
            Some(d) => Some(d),
            None => match ops[0] {
                FsOpV::WriteFile(p, d, m) => if p == path {
                    Some(d)
                } else {
                    None
                },
                _ => None,
            },
        }
    }
}

/// A later match wins over anything earlier: a match in a suffix is the
/// whole plan's answer.
proof fn lemma_find_write_suffix(ops: Seq<FsOpV>, path: Seq<char>, k: int)
    requires
        0 <= k <= ops.len(),
        find_write_spec(ops.skip(k), path) is Some,
    ensures
        find_write_spec(ops, path) == find_write_spec(ops.skip(k), path),
    decreases k,
{
    if k == 0 {
        assert(ops.skip(0) =~= ops);
    } else {
        assert(ops.skip(1).skip(k - 1) =~= ops.skip(k));
        lemma_find_write_suffix(ops.skip(1), path, k - 1);
        assert(find_write_spec(ops.skip(1), path) is Some);
    }
}

/// Looks the plan up for the last file written at `path`.
pub fn find_write(ops: &Vec<FsOp>, path: &String) -> (r: Option<Vec<u8>>)
    ensures
        match r {
            Some(b) => find_write_spec(ops.deep_view(), path@) == Some(b@),
            None => find_write_spec(ops.deep_view(), path@) is None,
        },
{
    let ghost dv = ops.deep_view();
    let mut i: usize = ops.len();
    proof {
        assert(dv.skip(dv.len() as int) =~= Seq::<FsOpV>::empty());
    }
    while i > 0
        invariant
            i <= ops@.len(),
            dv == ops.deep_view(),
            dv.len() == ops@.len(),
            forall|k: int| 0 <= k < ops@.len() ==> dv[k] == ops@[k]@,
            find_write_spec(dv.skip(i as int), path@) is None,
        decreases i,
    {
        i = i - 1;
        let ghost rem = dv.skip(i as int);
        proof {
            assert(rem[0] == dv[i as int]);
            assert(rem.skip(1) =~= dv.skip(i + 1));
        }
        match write_data(&ops[i], path) {
            Some(d) => {
                proof {
                    assert(find_write_spec(rem, path@) == Some(d@));
                    lemma_find_write_suffix(dv, path@, i as int);
                }
                return Some(crate::text::copy_bytes(d));
            },
            None => {
                proof {
                    assert(find_write_spec(rem, path@) is None);
                }
            },
        }
    }
    proof {
        assert(dv.skip(0) =~= dv);
    }
    None
}

/// The operation is a file write at `path`.
pub open spec fn is_write_at(op: FsOpV, path: Seq<char>) -> bool {
    op matches FsOpV::WriteFile(p2, _, _) && p2 == path
}

/// The bytes a file write carries.
pub open spec fn write_payload(op: FsOpV) -> Seq<u8> {
    match op {
        FsOpV::WriteFile(_, d, _) => d,
        _ => Seq::<u8>::empty(),
    }
}

/// The file contents this operation writes at `path`, if it is such a write.
fn write_data<'a>(op: &'a FsOp, path: &String) -> (r: Option<&'a Vec<u8>>)
    ensures
        match r {
            Some(d) => is_write_at(op@, path@) && d@ == write_payload(op@),
            None => !is_write_at(op@, path@),
        },
{
    match op {
        FsOp::WriteFile(p, d, m) => {
            proof {
                assert(op@ == FsOpV::WriteFile(p@, d@, *m));
            }
            if p.eq(path) {
                Some(d)
            } else {
                None
            }
        },
        _ => None,
    }
}

// ------------------------------------------------------------------
// Path joining
// ------------------------------------------------------------------

/// `base` extended by each component in turn, `/`-separated.
pub open spec fn joined_path(base: Seq<char>, comps: Seq<Seq<char>>) -> Seq<char>
    decreases comps.len(),
{
    if comps.len() == 0 {
        base
    } else {
        joined_path(base + "/"@ + comps[0], comps.skip(1))
    }
}

pub proof fn lemma_joined_path_push(base: Seq<char>, comps: Seq<Seq<char>>, c: Seq<char>)
    ensures
        joined_path(base, comps.push(c)) == joined_path(base, comps) + "/"@ + c,
    decreases comps.len(),
{
    if comps.len() == 0 {
        assert(comps.push(c).skip(1) =~= Seq::<Seq<char>>::empty());
        assert(comps.push(c)[0] == c);
        assert(joined_path(base, comps.push(c)) == joined_path(
            base + "/"@ + c,
            Seq::<Seq<char>>::empty(),
        ));
        assert(joined_path(base + "/"@ + c, Seq::<Seq<char>>::empty()) == base + "/"@ + c);
        assert(joined_path(base, comps) == base);
    } else {
        assert(comps.push(c).skip(1) =~= comps.skip(1).push(c));
        assert(comps.push(c)[0] == comps[0]);
        assert(joined_path(base, comps.push(c)) == joined_path(
            base + "/"@ + comps[0],
            comps.skip(1).push(c),
        ));
        assert(joined_path(base, comps) == joined_path(base + "/"@ + comps[0], comps.skip(1)));
        lemma_joined_path_push(base + "/"@ + comps[0], comps.skip(1), c);
    }
}

/// Joins `base` and the components with `/` separators.
pub fn join_path(base: &str, comps: &Vec<String>) -> (r: String)
    ensures
        r@ == joined_path(base@, comps.deep_view()),
{
    let mut out: String = base.to_owned();
    let mut i: usize = 0;
    proof {
        assert(comps.deep_view().take(0) =~= Seq::<Seq<char>>::empty());
    }
    while i < comps.len()
        invariant
            i <= comps@.len(),
            comps.deep_view().len() == comps@.len(),
            forall|k: int| 0 <= k < comps@.len() ==> comps.deep_view()[k] == comps@[k]@,
            out@ == joined_path(base@, comps.deep_view().take(i as int)),
        decreases comps.len() - i,
    {
        out.append("/");
        out.append(comps[i].as_str());
        proof {
            lemma_joined_path_push(base@, comps.deep_view().take(i as int), comps@[i as int]@);
            assert(comps.deep_view().take(i + 1) =~= comps.deep_view().take(i as int).push(
                comps@[i as int]@,
            ));
        }
        i = i + 1;
    }
    proof {
        assert(comps.deep_view().take(comps@.len() as int) =~= comps.deep_view());
    }
    out
}

/// `p` is a prefix of `s`.
pub open spec fn is_path_prefix(p: Seq<char>, s: Seq<char>) -> bool {
    p.len() <= s.len() && s.take(p.len() as int) == p
}

/// A joined path with at least one component always stays under its base:
/// `base` followed by a separator is a prefix of the whole path.
pub proof fn lemma_joined_path_prefix(base: Seq<char>, comps: Seq<Seq<char>>)
    requires
        comps.len() > 0,
    ensures
        is_path_prefix(base + "/"@, joined_path(base, comps)),
    decreases comps.len(),
{
    let step = base + "/"@ + comps[0];
    if comps.len() == 1 {
        assert(comps.skip(1) =~= Seq::<Seq<char>>::empty());
        assert(joined_path(step, Seq::<Seq<char>>::empty()) == step);
        assert(joined_path(base, comps) == step);
        assert(step.take((base + "/"@).len() as int) =~= base + "/"@);
    } else {
        lemma_joined_path_prefix(step, comps.skip(1));
        assert(joined_path(base, comps) == joined_path(step, comps.skip(1)));
        let whole = joined_path(step, comps.skip(1));
        // base + "/" is a prefix of step + "/", which is a prefix of the whole.
        assert(whole.take((base + "/"@).len() as int) =~= (whole.take(
            (step + "/"@).len() as int,
        )).take((base + "/"@).len() as int));
        assert((step + "/"@).take((base + "/"@).len() as int) =~= base + "/"@);
    }
}

/// Joins two path fragments with a `/` separator.
pub fn join2(base: &str, leaf: &str) -> (r: String)
    ensures
        r@ == base@ + "/"@ + leaf@,
{
    let mut out: String = base.to_owned();
    out.append("/");
    out.append(leaf);
    out
}

} // verus!
