//! The recursive copier. A copy run walks the source tree — one level of
//! children at a time, the way the tree is found on disk — and records one
//! operation per leaf; the shell executes those operations. Failures while
//! reading a directory abort the run and surface as an error; a failure at
//! an individual leaf is contained: it becomes a warning and the run still
//! counts as a success.

use vstd::prelude::*;

use crate::errors::Error;
use crate::paths::{opt_views, push_char, views};

verus! {

/// One copy operation: a source path and the destination it maps to.
#[derive(Debug)]
pub struct CopyOp {
    pub from: String,
    pub to: String,
}

/// How a planned operation relates to the roots the plan was made for: its
/// source extends `from` and its destination extends `to` by one and the
/// same relative suffix — the shape of the source tree is mirrored at the
/// destination.
pub open spec fn mirrors(
    from: Seq<char>,
    to: Seq<char>,
    op_from: Seq<char>,
    op_to: Seq<char>,
) -> bool {
    &&& from.is_prefix_of(op_from)
    &&& to.is_prefix_of(op_to)
    &&& op_from.skip(from.len() as int) == op_to.skip(to.len() as int)
}

/// One sequence is the start of another, then of a third: it is the start
/// of the third.
proof fn lemma_prefix_trans<A>(a: Seq<A>, b: Seq<A>, c: Seq<A>)
    requires
        a.is_prefix_of(b),
        b.is_prefix_of(c),
    ensures
        a.is_prefix_of(c),
{
    assert forall|j: int| 0 <= j < a.len() implies a[j] == c[j] by {
        assert(a[j] == b.subrange(0, a.len() as int)[j]);
        assert(b[j] == c.subrange(0, b.len() as int)[j]);
    }
    assert(a =~= c.subrange(0, a.len() as int));
}

/// An operation that mirrors a child pair — the roots extended by `'/'` and
/// one entry name — mirrors the roots themselves.
proof fn lemma_mirrors_through_child(
    from: Seq<char>,
    to: Seq<char>,
    name: Seq<char>,
    op_from: Seq<char>,
    op_to: Seq<char>,
)
    requires
        mirrors(from + seq!['/'] + name, to + seq!['/'] + name, op_from, op_to),
    ensures
        mirrors(from, to, op_from, op_to),
{
    let cf = from + seq!['/'] + name;
    let ct = to + seq!['/'] + name;
    let ext = 1 + name.len() as int;
    assert(from.is_prefix_of(cf)) by {
        assert(from =~= cf.subrange(0, from.len() as int));
    }
    assert(to.is_prefix_of(ct)) by {
        assert(to =~= ct.subrange(0, to.len() as int));
    }
    lemma_prefix_trans(from, cf, op_from);
    lemma_prefix_trans(to, ct, op_to);
    assert(op_from.len() - cf.len() == op_to.len() - ct.len()) by {
        assert(op_from.skip(cf.len() as int).len() == op_to.skip(ct.len() as int).len());
    }
    let fs = op_from.skip(from.len() as int);
    let ts = op_to.skip(to.len() as int);
    assert(fs.len() == ts.len());
    assert forall|m: int| 0 <= m < fs.len() implies #[trigger] fs[m] == ts[m] by {
        assert(fs[m] == op_from[from.len() + m]);
        assert(ts[m] == op_to[to.len() + m]);
        if m < ext {
            assert(op_from[from.len() + m] == cf[from.len() + m]) by {
                assert(cf[from.len() + m] == op_from.subrange(0, cf.len() as int)[from.len()
                    + m]);
            }
            assert(op_to[to.len() + m] == ct[to.len() + m]) by {
                assert(ct[to.len() + m] == op_to.subrange(0, ct.len() as int)[to.len() + m]);
            }
            assert(cf[from.len() + m] == (seq!['/'] + name)[m]);
            assert(ct[to.len() + m] == (seq!['/'] + name)[m]);
        } else {
            let k = m - ext;
            assert(op_from.skip(cf.len() as int)[k] == op_from[cf.len() + k]);
            assert(op_to.skip(ct.len() as int)[k] == op_to[ct.len() + k]);
        }
    }
    assert(fs =~= ts);
}

/// `base`, a separator, then `name`: the path of a directory entry.
fn concat_sep(base: &str, name: &str) -> (r: String)
    ensures
        r@ == base@ + seq!['/'] + name@,
{
    let mut r = base.to_owned();
    push_char(&mut r, '/');
    r.append(name);
    proof {
        assert(r@ =~= base@ + seq!['/'] + name@);
    }
    r
}

/// Relies on `std::path::Path::metadata` and `Metadata::is_dir`: whether
/// the path's metadata names a directory, or `None` when the metadata
/// could not be read at all. The answer depends on the state of the
/// filesystem, so nothing is assumed of it.
#[verifier::external_body]
fn probe_metadata_is_dir(path: &str) -> Option<bool> {
    std::path::Path::new(path).metadata().ok().map(|m| m.is_dir())
}

/// Relies on `std::path::Path::is_dir`: the cheaper directory probe, used
/// as a fallback when metadata cannot be read. The answer depends on the
/// state of the filesystem, so nothing is assumed of it.
#[verifier::external_body]
fn probe_is_dir(path: &str) -> bool {
    std::path::Path::new(path).is_dir()
}

/// Relies on `std::path::Path::read_dir` and `DirEntry::file_name`: the
/// bare names of the directory's entries, or the text of the error that
/// stopped the enumeration. What comes back depends on the state of the
/// filesystem, so nothing is assumed of it.
#[verifier::external_body]
fn probe_dir_entries(path: &str) -> Result<Vec<String>, String> {
    match std::path::Path::new(path).read_dir() {
        Ok(entries) => entries.map(
            |entry| match entry {
                Ok(e) => Ok(e.file_name().to_string_lossy().into_owned()),
                Err(e) => Err(e.to_string()),
            },
        ).collect(),
        Err(e) => Err(e.to_string()),
    }
}

/// Decides whether the source counts as a directory: the metadata's
/// answer where metadata could be read — it catches errors — and the
/// cheaper probe's answer otherwise, which is reliable enough to make
/// progress when metadata retrieval fails transiently.
pub fn classify_dir(meta_is_dir: Option<bool>, fallback_is_dir: bool) -> (b: bool)
    ensures
        b == (match meta_is_dir {
            Some(m) => m,
            None => fallback_is_dir,
        }),
{
    match meta_is_dir {
        Some(m) => m,
        None => fallback_is_dir,
    }
}

/// What the filesystem said of one node of the traversal: not a
/// directory; a directory together with the names of its entries; or a
/// directory whose entries could not be read.
#[derive(Debug)]
pub enum NodeProbe {
    NotDir,
    Dir { entries: Vec<String> },
    DirUnreadable { err: String },
}

/// What one node contributes to the plan: its own leaf operation, or the
/// child pairs that remain to be walked.
#[derive(Debug)]
pub enum NodePlan {
    Leaf(CopyOp),
    Children(Vec<CopyOp>),
}

/// Plans one node of the traversal from the probes' answers alone. A
/// source that is not a directory is a leaf and yields exactly its one
/// operation, `from` to `to`. A directory yields one child pair per entry
/// name, in order — each pair the two roots extended by `'/'` and that
/// name — which rebuilds the relative subtree at the destination without
/// anyone pre-enumerating it. A directory whose entries could not be read
/// aborts with that error: structural failures propagate, in contrast to
/// contained leaf failures.
pub fn plan_node(from: &str, to: &str, probe: NodeProbe) -> (r: Result<NodePlan, Error>)
    ensures
        probe is NotDir ==> (r matches Ok(p) && (p matches NodePlan::Leaf(op) && op.from@
            == from@ && op.to@ == to@)),
        probe matches NodeProbe::Dir { entries } ==> (r matches Ok(p) && (p matches
            NodePlan::Children(pairs) && pairs@.len() == entries@.len() && (forall|i: int|
            0 <= i < entries@.len() ==> (#[trigger] pairs@[i]).from@ == from@ + seq!['/']
                + entries@[i]@ && pairs@[i].to@ == to@ + seq!['/'] + entries@[i]@))),
        probe matches NodeProbe::DirUnreadable { err } ==> (r matches Err(e) && (e matches
            Error::IoError(m) && m@ == err@)),
{
    match probe {
        NodeProbe::NotDir => Ok(
            NodePlan::Leaf(CopyOp { from: from.to_owned(), to: to.to_owned() }),
        ),
        NodeProbe::Dir { entries } => {
            let mut pairs: Vec<CopyOp> = Vec::new();
            let mut i: usize = 0;
            while i < entries.len()
                invariant
                    i <= entries@.len(),
                    pairs@.len() == i,
                    forall|j: int|
                        0 <= j < i ==> (#[trigger] pairs@[j]).from@ == from@ + seq!['/']
                            + entries@[j]@ && pairs@[j].to@ == to@ + seq!['/'] + entries@[j]@,
                decreases entries@.len() - i,
            {
                pairs.push(
                    CopyOp {
                        from: concat_sep(from, entries[i].as_str()),
                        to: concat_sep(to, entries[i].as_str()),
                    },
                );
                i = i + 1;
            }
            Ok(NodePlan::Children(pairs))
        },
        NodeProbe::DirUnreadable { err } => Err(Error::IoError(err)),
    }
}

/// The deepest directory nesting one copy run follows. A tree nested
/// deeper than this — in practice only a cycle of symlinked directories —
/// fails with an error instead of walking forever.
pub const MAX_COPY_DEPTH: u64 = 4096;

/// Walks `from` and appends one operation per leaf found under it, each
/// mirroring the pair of roots. What each node contributes is decided by
/// `plan_node`, whose contract fixes it for every probe answer; this
/// driver only asks the filesystem and follows the child pairs.
fn copy_into(from: &str, to: &str, depth: u64, ops: &mut Vec<CopyOp>) -> (r: Result<(), Error>)
    ensures
        old(ops)@.is_prefix_of(final(ops)@),
        r matches Err(e) ==> e is IoError,
        forall|j: int|
            old(ops)@.len() <= j < final(ops)@.len() ==> mirrors(
                from@,
                to@,
                #[trigger] final(ops)@[j].from@,
                final(ops)@[j].to@,
            ),
    decreases depth,
{
    let src_is_dir = classify_dir(probe_metadata_is_dir(from), probe_is_dir(from));
    if !src_is_dir {
        match plan_node(from, to, NodeProbe::NotDir) {
            Ok(NodePlan::Leaf(op)) => {
                ops.push(op);
                proof {
                    assert(old(ops)@ =~= ops@.subrange(0, old(ops)@.len() as int));
                    assert(mirrors(from@, to@, from@, to@)) by {
                        assert(from@ =~= from@.subrange(0, from@.len() as int));
                        assert(to@ =~= to@.subrange(0, to@.len() as int));
                        assert(from@.skip(from@.len() as int) =~= to@.skip(to@.len() as int));
                    }
                }
                Ok(())
            },
            Ok(NodePlan::Children(_)) => {
                proof {
                    assert(false);
                }
                Ok(())
            },
            Err(e) => {
                proof {
                    assert(false);
                }
                Err(e)
            },
        }
    } else if depth == 0 {
        proof {
            assert(old(ops)@ =~= ops@.subrange(0, old(ops)@.len() as int));
        }
        Err(Error::IoError("directory tree is nested too deeply".to_owned()))
    } else {
        match probe_dir_entries(from) {
            Err(err) => {
                match plan_node(from, to, NodeProbe::DirUnreadable { err }) {
                    Err(e) => {
                        proof {
                            assert(old(ops)@ =~= ops@.subrange(0, old(ops)@.len() as int));
                        }
                        Err(e)
                    },
                    Ok(_) => {
                        proof {
                            assert(false);
                        }
                        Ok(())
                    },
                }
            },
            Ok(entries) => {
                let ghost gnames = entries@;
                match plan_node(from, to, NodeProbe::Dir { entries }) {
                    Ok(NodePlan::Children(pairs)) => {
                        let mut i: usize = 0;
                        while i < pairs.len()
                            invariant
                                i <= pairs@.len(),
                                1 <= depth,
                                pairs@.len() == gnames.len(),
                                forall|j: int|
                                    0 <= j < pairs@.len() ==> (#[trigger] pairs@[j]).from@
                                        == from@ + seq!['/'] + gnames[j]@ && pairs@[j].to@
                                        == to@ + seq!['/'] + gnames[j]@,
                                old(ops)@.is_prefix_of(ops@),
                                forall|j: int|
                                    old(ops)@.len() <= j < ops@.len() ==> mirrors(
                                        from@,
                                        to@,
                                        #[trigger] ops@[j].from@,
                                        ops@[j].to@,
                                    ),
                            decreases pairs@.len() - i,
                        {
                            let ghost mid = ops@;
                            let step = copy_into(
                                pairs[i].from.as_str(),
                                pairs[i].to.as_str(),
                                depth - 1,
                                ops,
                            );
                            proof {
                                lemma_prefix_trans(old(ops)@, mid, ops@);
                                assert forall|j: int|
                                    old(ops)@.len() <= j < ops@.len() implies mirrors(
                                    from@,
                                    to@,
                                    #[trigger] ops@[j].from@,
                                    ops@[j].to@,
                                ) by {
                                    if j < mid.len() {
                                        assert(ops@[j] == mid.subrange(
                                            0,
                                            mid.len() as int,
                                        )[j]);
                                        assert(ops@[j] == mid[j]);
                                    } else {
                                        lemma_mirrors_through_child(
                                            from@,
                                            to@,
                                            gnames[i as int]@,
                                            ops@[j].from@,
                                            ops@[j].to@,
                                        );
                                    }
                                }
                            }
                            match step {
                                Ok(_) => {},
                                Err(e) => {
                                    return Err(e);
                                },
                            }
                            i = i + 1;
                        }
                        Ok(())
                    },
                    Ok(NodePlan::Leaf(_)) => {
                        proof {
                            assert(false);
                        }
                        Ok(())
                    },
                    Err(_) => {
                        proof {
                            assert(false);
                        }
                        Ok(())
                    },
                }
            },
        }
    }
}

/// Plans the recursive copy of `from` into `to`. A directory is walked and
/// its children are planned in turn, rebuilding the full relative subtree
/// at the destination; anything else becomes a single leaf operation, so
/// every planned operation mirrors the two roots. A failure while reading
/// a directory aborts the plan, always with an input/output error; the
/// depth bound is the one addition over walking blindly, so that a cyclic
/// tree of symlinked directories cannot walk forever.
pub fn copy(from: &str, to: &str) -> (r: Result<Vec<CopyOp>, Error>)
    ensures
        r matches Ok(ops) ==> forall|j: int|
            0 <= j < ops@.len() ==> mirrors(
                from@,
                to@,
                #[trigger] ops@[j].from@,
                ops@[j].to@,
            ),
        r matches Err(e) ==> e is IoError,
{
    let mut ops: Vec<CopyOp> = Vec::new();
    match copy_into(from, to, MAX_COPY_DEPTH, &mut ops) {
        Ok(_) => Ok(ops),
        Err(e) => Err(e),
    }
}

/// The warning line for one failed leaf copy.
pub open spec fn warning_line(from: Seq<char>, err: Seq<char>) -> Seq<char> {
    "Couldn't copy "@ + from + " ("@ + err + ")"@
}

/// The warning lines of a finished run: one per failed leaf, in order.
pub open spec fn warning_lines(
    ops: Seq<CopyOp>,
    results: Seq<Option<Seq<char>>>,
) -> Seq<Seq<char>>
    decreases ops.len(),
{
    if ops.len() == 0 || results.len() == 0 {
        Seq::empty()
    } else {
        warning_lines(ops.drop_last(), results.drop_last()) + (match results.last() {
            Some(e) => seq![warning_line(ops.last().from@, e)],
            None => Seq::empty(),
        })
    }
}

/// Renders the warning for one failed leaf copy.
fn format_warning(from: &str, err: &str) -> (w: String)
    ensures
        w@ == warning_line(from@, err@),
{
    let mut w = "Couldn't copy ".to_owned();
    w.append(from);
    w.append(" (");
    w.append(err);
    w.append(")");
    proof {
        assert(w@ =~= warning_line(from@, err@));
    }
    w
}

/// Collects the warnings of a finished run of leaf copies: one line per
/// failure, naming the source and the underlying cause. Failures at the
/// leaf level are contained by design — they produce warnings, never an
/// error, so a run whose structural work succeeded reports success
/// whatever became of its individual leaves.
pub fn copy_warnings(ops: &Vec<CopyOp>, results: &Vec<Option<String>>) -> (w: Vec<String>)
    requires
        ops@.len() == results@.len(),
    ensures
        views(w@) == warning_lines(ops@, opt_views(results@)),
{
    let mut w: Vec<String> = Vec::new();
    let mut i: usize = 0;
    while i < ops.len()
        invariant
            i <= ops@.len(),
            ops@.len() == results@.len(),
            views(w@) == warning_lines(
                ops@.subrange(0, i as int),
                opt_views(results@).subrange(0, i as int),
            ),
        decreases ops@.len() - i,
    {
        proof {
            let oe = ops@.subrange(0, i as int + 1);
            let re = opt_views(results@).subrange(0, i as int + 1);
            assert(oe.drop_last() =~= ops@.subrange(0, i as int));
            assert(re.drop_last() =~= opt_views(results@).subrange(0, i as int));
            assert(oe.last() == ops@[i as int]);
            assert(re.last() == opt_views(results@)[i as int]);
        }
        match &results[i] {
            Some(e) => {
                w.push(format_warning(ops[i].from.as_str(), e.as_str()));
                proof {
                    assert(views(w@) =~= warning_lines(
                        ops@.subrange(0, i as int + 1),
                        opt_views(results@).subrange(0, i as int + 1),
                    ));
                }
            },
            None => {
                proof {
                    assert(views(w@) =~= warning_lines(
                        ops@.subrange(0, i as int + 1),
                        opt_views(results@).subrange(0, i as int + 1),
                    ));
                }
            },
        }
        i = i + 1;
    }
    proof {
        assert(ops@.subrange(0, ops@.len() as int) =~= ops@);
        assert(opt_views(results@).subrange(0, results@.len() as int) =~= opt_views(results@));
    }
    w
}

} // verus!
