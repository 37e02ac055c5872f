//! A whole run over a directory, as a model: the directory maps each file's
//! name to the fingerprint of its contents, and the candidates are organised
//! one after another, each operation succeeding.
use vstd::prelude::*;
use crate::naming::{canonical_name_of, extension_of, is_fingerprint, lemma_canonical_split, stem_of};
use crate::organiser::lemma_organised_name_is_stable;

verus! {

/// The directory after the file `name` is organised, as `FileTask::step`
/// decides when every operation succeeds: left alone when it has its
/// canonical name, removed when that name is taken, renamed otherwise.
pub open spec fn organise_one(dir: Map<Seq<u8>, Seq<u8>>, name: Seq<u8>) -> Map<Seq<u8>, Seq<u8>> {
    if !dir.contains_key(name) {
        dir
    } else {
        let fp = dir[name];
        let target = canonical_name_of(name, fp);
        if target == name {
            dir
        } else if dir.contains_key(target) {
            dir.remove(name)
        } else {
            dir.remove(name).insert(target, fp)
        }
    }
}

/// The directory after the candidates `names` are organised in order.
pub open spec fn organise_all(dir: Map<Seq<u8>, Seq<u8>>, names: Seq<Seq<u8>>) -> Map<Seq<u8>, Seq<u8>>
    decreases names.len(),
{
    if names.len() == 0 {
        dir
    } else {
        organise_all(organise_one(dir, names[0]), names.subrange(1, names.len() as int))
    }
}

/// Every file of `dir` is named by its fingerprint and keeps its extension.
pub open spec fn is_organised(dir: Map<Seq<u8>, Seq<u8>>) -> bool {
    forall|k: Seq<u8>| #[trigger] dir.contains_key(k) ==> k == canonical_name_of(k, dir[k])
}

/// Every file of `dir` that is not among `names` already has its canonical name.
pub open spec fn rest_organised(dir: Map<Seq<u8>, Seq<u8>>, names: Seq<Seq<u8>>) -> bool {
    forall|k: Seq<u8>| #[trigger] dir.contains_key(k) && !names.contains(k) ==> k == canonical_name_of(k, dir[k])
}

/// Every file of `dir` has a fingerprint of the right shape.
pub open spec fn all_fingerprints(dir: Map<Seq<u8>, Seq<u8>>) -> bool {
    forall|k: Seq<u8>| #[trigger] dir.contains_key(k) ==> is_fingerprint(dir[k])
}

proof fn lemma_organise_one(dir: Map<Seq<u8>, Seq<u8>>, names: Seq<Seq<u8>>)
    requires
        names.len() > 0,
        all_fingerprints(dir),
        rest_organised(dir, names),
    ensures
        all_fingerprints(organise_one(dir, names[0])),
        rest_organised(organise_one(dir, names[0]), names.subrange(1, names.len() as int)),
{
    let n = names[0];
    let rest = names.subrange(1, names.len() as int);
    let d1 = organise_one(dir, n);
    if dir.contains_key(n) {
        lemma_organised_name_is_stable(n, dir[n]);
    }
    assert forall|k: Seq<u8>| #[trigger] d1.contains_key(k) && !rest.contains(k) implies k
        == canonical_name_of(k, d1[k]) by {
        if k != n && dir.contains_key(k) && d1[k] == dir[k] {
            if names.contains(k) {
                let i = choose|i: int| 0 <= i < names.len() && names[i] == k;
                assert(rest[i - 1] == k);
            }
        }
    }
}

proof fn lemma_organise_all(dir: Map<Seq<u8>, Seq<u8>>, names: Seq<Seq<u8>>)
    requires
        all_fingerprints(dir),
        rest_organised(dir, names),
    ensures
        all_fingerprints(organise_all(dir, names)),
        is_organised(organise_all(dir, names)),
    decreases names.len(),
{
    if names.len() == 0 {
        assert forall|k: Seq<u8>| #[trigger] dir.contains_key(k) implies k == canonical_name_of(k, dir[k]) by {
            assert(!names.contains(k));
        }
    } else {
        lemma_organise_one(dir, names);
        lemma_organise_all(organise_one(dir, names[0]), names.subrange(1, names.len() as int));
    }
}

/// After a run in which every operation succeeds, over candidates that
/// include every file not already carrying its canonical name, each file is
/// named by the fingerprint of its contents with its own extension, and no two
/// files share both fingerprint and extension: of files with identical
/// contents and extension, one remains.
pub proof fn lemma_run_leaves_one_file_per_content(dir: Map<Seq<u8>, Seq<u8>>, names: Seq<Seq<u8>>)
    requires
        all_fingerprints(dir),
        rest_organised(dir, names),
    ensures
        is_organised(organise_all(dir, names)),
        forall|k: Seq<u8>| #[trigger] organise_all(dir, names).contains_key(k) ==> stem_of(k)
            == organise_all(dir, names)[k],
        forall|p: Seq<u8>, q: Seq<u8>|
            #![trigger organise_all(dir, names).contains_key(p), organise_all(dir, names).contains_key(q)]
            organise_all(dir, names).contains_key(p) && organise_all(dir, names).contains_key(q) && p != q
                ==> !(organise_all(dir, names)[p] == organise_all(dir, names)[q] && extension_of(p)
                == extension_of(q)),
{
    lemma_organise_all(dir, names);
    let f = organise_all(dir, names);
    assert forall|k: Seq<u8>| #[trigger] f.contains_key(k) implies stem_of(k) == f[k] by {
        lemma_canonical_split(k, f[k]);
    }
}

} // verus!
