//! The structural differ.
//!
//! `diff_values` computes, for two well-formed trees `from` and `to`, a
//! sequence of patch operations that transforms `from` into `to`:
//! objects are diffed by key, arrays positionally, everything else by a
//! whole-value `replace`.  Its contract states exactly that: replaying the
//! output over `from` yields `to`, and the output is empty precisely when
//! the two trees are equal.

use vstd::prelude::*;
use crate::json::{
    Json, JsonValue, json_clone, json_eq, keys_sorted, lemma_lex_lt_asym, lemma_lex_lt_total,
    lemma_lex_lt_trans, lemma_obj_get_concat, lemma_obj_remove_concat, lemma_obj_set_concat,
    lemma_obj_upsert_concat, lex_lt, obj_get, str_lt, view_elems, view_pairs,
};
use crate::patch_entry::{
    Entry, PTok, PatchEntry, PatchOp, PathToken, roots_replace, view_entries, view_path,
};
use crate::apply::{
    apply_entries, apply_entry, lemma_apply_entries_append, lemma_apply_entries_push,
    lemma_prefix_idx_entries, lemma_prefix_key_entries, prefix_entries,
};

verus! {

/// A one-step path holding the given object key.
fn key_path(k: &String) -> (r: Vec<PathToken>)
    ensures
        view_path(r@) == seq![PTok::Key(k@)],
{
    let mut v: Vec<PathToken> = Vec::new();
    v.push(PathToken::Key(k.clone()));
    proof {
        assert(view_path(v@) =~= seq![PTok::Key(k@)]);
    }
    v
}

/// A one-step path holding the given array index.
fn idx_path(i: usize) -> (r: Vec<PathToken>)
    ensures
        view_path(r@) == seq![PTok::Idx(i as int)],
{
    let mut v: Vec<PathToken> = Vec::new();
    v.push(PathToken::Idx(i));
    proof {
        assert(view_path(v@) =~= seq![PTok::Idx(i as int)]);
    }
    v
}

/// A patch of one operation: replace the whole document by `to`.
fn whole_replace(to: &JsonValue) -> (out: Vec<PatchEntry>)
    ensures
        view_entries(out@).len() == 1,
        view_entries(out@)[0] == (Entry {
            op: PatchOp::Replace,
            path: Seq::<PTok>::empty(),
            value: Some(to@),
        }),
        roots_replace(view_entries(out@)),
{
    let mut out: Vec<PatchEntry> = Vec::new();
    let path: Vec<PathToken> = Vec::new();
    proof {
        assert(view_path(path@) =~= Seq::<PTok>::empty());
    }
    out.push(PatchEntry::new(PatchOp::Replace, path, Some(json_clone(to))));
    out
}

/// Computes a patch that transforms `from` into `to`.
///
/// Objects are reconciled by key: a key only in `from` becomes a `remove`,
/// a key only in `to` becomes an `add`, and a key in both is recursively
/// diffed under that key.  Arrays are compared position by position, with
/// surplus tail elements removed or missing ones appended.  Any other
/// difference becomes a whole-value `replace`.
#[verifier::rlimit(100)]
pub fn diff_values(from: &JsonValue, to: &JsonValue) -> (out: Vec<PatchEntry>)
    requires
        from@.wf(),
        to@.wf(),
    ensures
        apply_entries(from@, view_entries(out@)) == Some(to@),
        (out@.len() == 0) == (from@ == to@),
        roots_replace(view_entries(out@)),
    decreases from,
{
    if json_eq(from, to) {
        let out: Vec<PatchEntry> = Vec::new();
        proof {
            assert(view_entries(out@) =~= Seq::<Entry>::empty());
        }
        return out;
    }
    match from {
        JsonValue::Object(fp) => match to {
            JsonValue::Object(tp) => {
                let flen = fp.len();
                let tlen = tp.len();
                let mut out: Vec<PatchEntry> = Vec::new();
                let mut i: usize = 0;
                let mut j: usize = 0;
                proof {
                    assert(view_entries(out@) =~= Seq::<Entry>::empty());
                    assert(view_pairs(tp@).take(0) =~= Seq::<(Seq<char>, Json)>::empty());
                    assert(view_pairs(tp@).take(0) + view_pairs(fp@).skip(0) =~= view_pairs(fp@));
                    assert(from@ == Json::Obj(view_pairs(fp@)));
                }
                while i < flen || j < tlen
                    invariant
                        0 <= i <= flen,
                        0 <= j <= tlen,
                        flen == fp@.len(),
                        tlen == tp@.len(),
                        *from == JsonValue::Object(*fp),
                        *to == JsonValue::Object(*tp),
                        from@ == Json::Obj(view_pairs(fp@)),
                        to@ == Json::Obj(view_pairs(tp@)),
                        from@.wf(),
                        to@.wf(),
                        keys_sorted(view_pairs(fp@)),
                        keys_sorted(view_pairs(tp@)),
                        apply_entries(from@, view_entries(out@)) == Some(
                            Json::Obj(
                                view_pairs(tp@).take(j as int) + view_pairs(fp@).skip(i as int),
                            ),
                        ),
                        forall|p: int, q: int|
                            0 <= p < j && i <= q < flen ==> lex_lt(
                                #[trigger] view_pairs(tp@)[p].0,
                                #[trigger] view_pairs(fp@)[q].0,
                            ),
                        roots_replace(view_entries(out@)),
                    decreases (flen - i) + (tlen - j),
                {
                    let ghost fseq = view_pairs(fp@);
                    let ghost tseq = view_pairs(tp@);
                    let ghost aa = tseq.take(j as int);
                    let ghost bb = fseq.skip(i as int);
                    let ghost d = Json::Obj(aa + bb);
                    let take_equal = i < flen && j < tlen && fp[i].0 == tp[j].0;
                    let take_remove = !take_equal && i < flen && (j >= tlen || str_lt(
                        fp[i].0.as_str(),
                        tp[j].0.as_str(),
                    ));
                    proof {
                        assert(fseq.len() == flen);
                        assert(tseq.len() == tlen);
                        if i < flen {
                            assert(fseq[i as int] == (fp@[i as int].0@, fp@[i as int].1@));
                            assert(bb.len() == flen - i);
                            assert(bb[0] == fseq[i as int]);
                            assert(bb.drop_first() =~= fseq.skip(i as int + 1));
                        }
                        if j < tlen {
                            assert(tseq[j as int] == (tp@[j as int].0@, tp@[j as int].1@));
                        }
                        assert(Json::Obj(fseq).wf());
                        assert(Json::Obj(tseq).wf());
                        if i < flen {
                            crate::json::lemma_pairs_wf_index(fseq, i as int);
                        }
                        if j < tlen {
                            crate::json::lemma_pairs_wf_index(tseq, j as int);
                        }
                    }
                    if take_equal {
                        // the key is on both sides: diff the two values under it
                        let ghost fk = fseq[i as int].0;
                        proof {
                            assert(decreases_to!(*from => *fp));
                            assert(decreases_to!(fp@ => fp@[i as int]));
                            assert(decreases_to!(fp@[i as int] => fp@[i as int].1));
                            assert(decreases_to!(*from => fp@[i as int].1));
                            assert(fseq[i as int].1.wf());
                            assert(tseq[j as int].1.wf());
                        }
                        let sub = diff_values(&fp[i].1, &tp[j].1);
                        let ghost subviews = view_entries(sub@);
                        let ghost old_entries = view_entries(out@);
                        let snaplen = out.len();
                        let nsub = sub.len();
                        let mut k: usize = 0;
                        while k < nsub
                            invariant
                                0 <= k <= nsub,
                                nsub == sub@.len(),
                                subviews == view_entries(sub@),
                                out@.len() == snaplen + k,
                                snaplen == old_entries.len(),
                                forall|m: int|
                                    0 <= m < snaplen ==> #[trigger] view_entries(out@)[m]
                                        == old_entries[m],
                                forall|m: int|
                                    0 <= m < k ==> #[trigger] view_entries(out@)[snaplen + m]
                                        == (Entry {
                                        op: subviews[m].op,
                                        path: seq![PTok::Key(fk)] + subviews[m].path,
                                        value: subviews[m].value,
                                    }),
                                *from == JsonValue::Object(*fp),
                                i < flen,
                                flen == fp@.len(),
                                fk == view_pairs(fp@)[i as int].0,
                            decreases nsub - k,
                        {
                            let ghost pre = view_entries(out@);
                            proof {
                                assert(subviews[k as int] == sub@[k as int]@);
                                assert(view_pairs(fp@)[i as int].0 == fp@[i as int].0@);
                            }
                            let e = sub[k].clone_entry().prefixed(PathToken::Key(fp[i].0.clone()));
                            proof {
                                assert(e@ == (Entry {
                                    op: subviews[k as int].op,
                                    path: seq![PTok::Key(fk)] + subviews[k as int].path,
                                    value: subviews[k as int].value,
                                }));
                            }
                            out.push(e);
                            proof {
                                assert(view_entries(out@) =~= pre.push(e@));
                            }
                            k = k + 1;
                        }
                        proof {
                            let new_entries = view_entries(out@);
                            let pref = prefix_entries(PTok::Key(fk), subviews);
                            assert(new_entries.len() == snaplen + nsub);
                            assert forall|m: int| 0 <= m < nsub implies #[trigger] pref[m]
                                == new_entries[snaplen + m] by {
                                assert(new_entries[snaplen + m] == (Entry {
                                    op: subviews[m].op,
                                    path: seq![PTok::Key(fk)] + subviews[m].path,
                                    value: subviews[m].value,
                                }));
                            }
                            assert(new_entries =~= old_entries + pref);
                            assert(new_entries =~= old_entries + prefix_entries(
                                PTok::Key(fk),
                                subviews,
                            ));
                            // the processed keys of `to` all differ from fk
                            assert forall|p: int| 0 <= p < aa.len() implies (#[trigger] aa[p]).0
                                != fk by {
                                assert(aa[p] == tseq[p]);
                                assert(lex_lt(tseq[p].0, fseq[i as int].0));
                                lemma_lex_lt_asym(tseq[p].0, fk);
                            }
                            lemma_obj_get_concat(aa, bb, fk);
                            assert(bb.len() > 0);
                            assert(bb[0].0 == fk);
                            assert(obj_get(bb, fk) == Some(fseq[i as int].1));
                            assert(obj_get(aa + bb, fk) == Some(fseq[i as int].1));
                            lemma_prefix_key_entries(aa + bb, fk, fseq[i as int].1, subviews);
                            lemma_apply_entries_append(
                                from@,
                                old_entries,
                                prefix_entries(PTok::Key(fk), subviews),
                            );
                            // the sub-patch turns the old child into the new one
                            assert(apply_entries(fseq[i as int].1, subviews) == Some(
                                tseq[j as int].1,
                            ));
                            lemma_obj_set_concat(aa, bb, fk, tseq[j as int].1);
                            assert(crate::json::obj_set(bb, fk, tseq[j as int].1) =~= seq![
                                (fk, tseq[j as int].1),
                            ] + bb.drop_first());
                            assert((fk, tseq[j as int].1) == tseq[j as int]);
                            assert(aa + (seq![tseq[j as int]] + fseq.skip(i as int + 1)) =~= tseq
                                .take(j as int + 1) + fseq.skip(i as int + 1));
                            assert(apply_entries(from@, new_entries) == Some(
                                Json::Obj(tseq.take(j as int + 1) + fseq.skip(i as int + 1)),
                            ));
                            // the key-order invariant for the next round
                            assert forall|p: int, q: int|
                                0 <= p < j + 1 && i + 1 <= q < flen implies lex_lt(
                                #[trigger] tseq[p].0,
                                #[trigger] fseq[q].0,
                            ) by {
                                if p == j {
                                    assert(lex_lt(fseq[i as int].0, fseq[q].0));
                                } else {
                                    assert(lex_lt(tseq[p].0, fseq[q].0));
                                }
                            }
                        }
                        i = i + 1;
                        j = j + 1;
                    } else if take_remove {
                        // the key is only in `from`: remove it
                        let ghost fk = fseq[i as int].0;
                        let e = PatchEntry::new(
                            PatchOp::Remove,
                            key_path(&fp[i].0),
                            None,
                        );
                        let ghost old_entries = view_entries(out@);
                        out.push(e);
                        proof {
                            assert(view_entries(out@) =~= old_entries.push(e@));
                            lemma_apply_entries_push(from@, old_entries, e@);
                            assert forall|p: int| 0 <= p < aa.len() implies (#[trigger] aa[p]).0
                                != fk by {
                                assert(aa[p] == tseq[p]);
                                assert(lex_lt(tseq[p].0, fseq[i as int].0));
                                lemma_lex_lt_asym(tseq[p].0, fk);
                            }
                            lemma_obj_get_concat(aa, bb, fk);
                            assert(bb.len() > 0);
                            assert(bb[0].0 == fk);
                            assert(obj_get(bb, fk) == Some(fseq[i as int].1));
                            lemma_obj_remove_concat(aa, bb, fk);
                            assert(crate::json::obj_remove(bb, fk) =~= bb.drop_first());
                            assert(aa + fseq.skip(i as int + 1) =~= tseq.take(j as int) + fseq.skip(
                                i as int + 1,
                            ));
                            assert(apply_entry(d, e@.op, e@.path, e@.value) == Some(
                                Json::Obj(tseq.take(j as int) + fseq.skip(i as int + 1)),
                            ));
                        }
                        i = i + 1;
                    } else {
                        // the key is only in `to`: add it with its value
                        proof {
                            assert(j < tlen);
                            if i < flen {
                                // neither equal nor from-first: the to-key sorts first
                                lemma_lex_lt_total(fseq[i as int].0, tseq[j as int].0);
                                assert(fp@[i as int].0@ != tp@[j as int].0@);
                                assert(lex_lt(tseq[j as int].0, fseq[i as int].0));
                            }
                        }
                        let ghost tk = tseq[j as int].0;
                        let e = PatchEntry::new(
                            PatchOp::Add,
                            key_path(&tp[j].0),
                            Some(json_clone(&tp[j].1)),
                        );
                        let ghost old_entries = view_entries(out@);
                        out.push(e);
                        proof {
                            assert(view_entries(out@) =~= old_entries.push(e@));
                            lemma_apply_entries_push(from@, old_entries, e@);
                            assert forall|p: int| lex_lt((#[trigger] aa[p]).0, tk) || !(0 <= p
                                < aa.len()) by {
                                if 0 <= p < aa.len() {
                                    assert(aa[p] == tseq[p]);
                                    assert(lex_lt(tseq[p].0, tseq[j as int].0));
                                }
                            }
                            lemma_obj_upsert_concat(aa, bb, tk, tseq[j as int].1);
                            if i < flen {
                                lemma_lex_lt_asym(tk, fseq[i as int].0);
                                assert(crate::json::obj_upsert(bb, tk, tseq[j as int].1) =~= seq![
                                    (tk, tseq[j as int].1),
                                ] + bb);
                            } else {
                                assert(bb =~= Seq::<(Seq<char>, Json)>::empty());
                                assert(crate::json::obj_upsert(bb, tk, tseq[j as int].1) =~= seq![
                                    (tk, tseq[j as int].1),
                                ]);
                                assert(crate::json::obj_upsert(bb, tk, tseq[j as int].1) =~= seq![
                                    (tk, tseq[j as int].1),
                                ] + bb);
                            }
                            assert((tk, tseq[j as int].1) == tseq[j as int]);
                            assert(aa + (seq![tseq[j as int]] + bb) =~= tseq.take(j as int + 1)
                                + fseq.skip(i as int));
                            assert(apply_entry(d, e@.op, e@.path, e@.value) == Some(
                                Json::Obj(tseq.take(j as int + 1) + fseq.skip(i as int)),
                            ));
                            assert forall|p: int, q: int|
                                0 <= p < j + 1 && i <= q < flen implies lex_lt(
                                #[trigger] tseq[p].0,
                                #[trigger] fseq[q].0,
                            ) by {
                                if p == j {
                                    if q > i {
                                        assert(lex_lt(fseq[i as int].0, fseq[q].0));
                                        lemma_lex_lt_trans(tk, fseq[i as int].0, fseq[q].0);
                                    }
                                } else {
                                    assert(lex_lt(tseq[p].0, fseq[q].0));
                                }
                            }
                        }
                        j = j + 1;
                    }
                }
                proof {
                    assert(view_pairs(tp@).take(tlen as int) =~= view_pairs(tp@));
                    assert(view_pairs(fp@).skip(flen as int) =~= Seq::<(Seq<char>, Json)>::empty());
                    assert(view_pairs(tp@).take(tlen as int) + view_pairs(fp@).skip(flen as int)
                        =~= view_pairs(tp@));
                    if out@.len() == 0 {
                        assert(view_entries(out@) =~= Seq::<Entry>::empty());
                        assert(apply_entries(from@, view_entries(out@)) == Some(from@));
                        assert(from@ == to@);
                    }
                }
                out
            },
            _ => {
                let out = whole_replace(to);
                proof {
                    let es = view_entries(out@);
                    assert(es.len() == 1);
                    assert(es[0].path.len() == 0);
                    assert(apply_entry(from@, es[0].op, es[0].path, es[0].value) == Some(to@));
                    assert(es.drop_first() =~= Seq::<Entry>::empty());
                    assert(apply_entries(to@, Seq::<Entry>::empty()) == Some(to@));
                    assert(apply_entries(from@, es) == Some(to@));
                    assert(out@.len() == 1);
                }
                out
            },
        },
        JsonValue::Array(fi) => match to {
            JsonValue::Array(ti) => {
                let flen = fi.len();
                let tlen = ti.len();
                let min = if flen < tlen {
                    flen
                } else {
                    tlen
                };
                let mut out: Vec<PatchEntry> = Vec::new();
                let mut i: usize = 0;
                proof {
                    assert(view_entries(out@) =~= Seq::<Entry>::empty());
                    assert(view_elems(ti@).take(0) + view_elems(fi@).skip(0) =~= view_elems(fi@));
                    assert(from@ == Json::Arr(view_elems(fi@)));
                }
                while i < min
                    invariant
                        0 <= i <= min,
                        min <= flen,
                        min <= tlen,
                        flen == fi@.len(),
                        tlen == ti@.len(),
                        min == if flen < tlen { flen } else { tlen },
                        *from == JsonValue::Array(*fi),
                        *to == JsonValue::Array(*ti),
                        from@ == Json::Arr(view_elems(fi@)),
                        to@ == Json::Arr(view_elems(ti@)),
                        from@.wf(),
                        to@.wf(),
                        apply_entries(from@, view_entries(out@)) == Some(
                            Json::Arr(
                                view_elems(ti@).take(i as int) + view_elems(fi@).skip(i as int),
                            ),
                        ),
                        roots_replace(view_entries(out@)),
                    decreases min - i,
                {
                    let ghost fseq = view_elems(fi@);
                    let ghost tseq = view_elems(ti@);
                    let ghost aa = tseq.take(i as int);
                    let ghost bb = fseq.skip(i as int);
                    proof {
                        assert(fseq.len() == flen);
                        assert(tseq.len() == tlen);
                        assert(fseq[i as int] == fi@[i as int]@);
                        assert(tseq[i as int] == ti@[i as int]@);
                        assert(bb[0] == fseq[i as int]);
                        assert(bb.drop_first() =~= fseq.skip(i as int + 1));
                        assert(decreases_to!(*from => *fi));
                        assert(decreases_to!(fi@ => fi@[i as int]));
                        assert(decreases_to!(*from => fi@[i as int]));
                        assert(Json::Arr(fseq).wf());
                        assert(Json::Arr(tseq).wf());
                        crate::json::lemma_all_wf_index(fseq, i as int);
                        crate::json::lemma_all_wf_index(tseq, i as int);
                        assert(fseq[i as int].wf());
                        assert(tseq[i as int].wf());
                    }
                    let sub = diff_values(&fi[i], &ti[i]);
                    let ghost subviews = view_entries(sub@);
                    let ghost old_entries = view_entries(out@);
                    let snaplen = out.len();
                    let nsub = sub.len();
                    let mut k: usize = 0;
                    while k < nsub
                        invariant
                            0 <= k <= nsub,
                            nsub == sub@.len(),
                            subviews == view_entries(sub@),
                            out@.len() == snaplen + k,
                            snaplen == old_entries.len(),
                            forall|m: int|
                                0 <= m < snaplen ==> #[trigger] view_entries(out@)[m]
                                    == old_entries[m],
                            forall|m: int|
                                0 <= m < k ==> #[trigger] view_entries(out@)[snaplen + m]
                                    == (Entry {
                                    op: subviews[m].op,
                                    path: seq![PTok::Idx(i as int)] + subviews[m].path,
                                    value: subviews[m].value,
                                }),
                            i < min,
                        decreases nsub - k,
                    {
                        let ghost pre = view_entries(out@);
                        proof {
                            assert(subviews[k as int] == sub@[k as int]@);
                        }
                        let e = sub[k].clone_entry().prefixed(PathToken::Idx(i));
                        proof {
                            assert(e@ == (Entry {
                                op: subviews[k as int].op,
                                path: seq![PTok::Idx(i as int)] + subviews[k as int].path,
                                value: subviews[k as int].value,
                            }));
                        }
                        out.push(e);
                        proof {
                            assert(view_entries(out@) =~= pre.push(e@));
                        }
                        k = k + 1;
                    }
                    proof {
                        let new_entries = view_entries(out@);
                        let pref = prefix_entries(PTok::Idx(i as int), subviews);
                        assert(new_entries.len() == snaplen + nsub);
                        assert forall|m: int| 0 <= m < nsub implies #[trigger] pref[m]
                            == new_entries[snaplen + m] by {
                            assert(new_entries[snaplen + m] == (Entry {
                                op: subviews[m].op,
                                path: seq![PTok::Idx(i as int)] + subviews[m].path,
                                value: subviews[m].value,
                            }));
                        }
                        assert(new_entries =~= old_entries + pref);
                        assert(new_entries =~= old_entries + prefix_entries(
                            PTok::Idx(i as int),
                            subviews,
                        ));
                        assert((aa + bb).len() == tseq.take(i as int).len() + bb.len());
                        assert(0 <= i < (aa + bb).len());
                        assert((aa + bb)[i as int] == bb[0]);
                        lemma_prefix_idx_entries(aa + bb, i as int, subviews);
                        lemma_apply_entries_append(
                            from@,
                            old_entries,
                            prefix_entries(PTok::Idx(i as int), subviews),
                        );
                        assert(apply_entries(fseq[i as int], subviews) == Some(tseq[i as int]));
                        assert((aa + bb).update(i as int, tseq[i as int]) =~= tseq.take(i as int + 1)
                            + fseq.skip(i as int + 1));
                        assert(apply_entries(from@, new_entries) == Some(
                            Json::Arr(tseq.take(i as int + 1) + fseq.skip(i as int + 1)),
                        ));
                    }
                    i = i + 1;
                }
                if flen > tlen {
                    // drop the surplus tail of `from`, one element at a time
                    let mut q: usize = tlen;
                    proof {
                        assert(view_elems(ti@).take(tlen as int) =~= view_elems(ti@));
                    }
                    while q < flen
                        invariant
                            tlen <= q <= flen,
                            flen == fi@.len(),
                            tlen == ti@.len(),
                            *from == JsonValue::Array(*fi),
                            *to == JsonValue::Array(*ti),
                            from@ == Json::Arr(view_elems(fi@)),
                            to@ == Json::Arr(view_elems(ti@)),
                            apply_entries(from@, view_entries(out@)) == Some(
                                Json::Arr(view_elems(ti@) + view_elems(fi@).skip(q as int)),
                            ),
                            roots_replace(view_entries(out@)),
                        decreases flen - q,
                    {
                        let ghost fseq = view_elems(fi@);
                        let ghost tseq = view_elems(ti@);
                        let ghost bb = fseq.skip(q as int);
                        let e = PatchEntry::new(PatchOp::Remove, idx_path(tlen), None);
                        let ghost old_entries = view_entries(out@);
                        out.push(e);
                        proof {
                            assert(view_entries(out@) =~= old_entries.push(e@));
                            lemma_apply_entries_push(from@, old_entries, e@);
                            let dd = tseq + bb;
                            assert(dd.len() == tlen + (flen - q));
                            assert(0 <= tlen < dd.len());
                            assert(dd.remove(tlen as int) =~= tseq + fseq.skip(q as int + 1));
                            assert(apply_entry(Json::Arr(dd), e@.op, e@.path, e@.value) == Some(
                                Json::Arr(tseq + fseq.skip(q as int + 1)),
                            ));
                        }
                        q = q + 1;
                    }
                    proof {
                        assert(view_elems(fi@).skip(flen as int) =~= Seq::<Json>::empty());
                        assert(view_elems(ti@) + view_elems(fi@).skip(flen as int) =~= view_elems(
                            ti@,
                        ));
                        if out@.len() == 0 {
                            assert(view_entries(out@) =~= Seq::<Entry>::empty());
                            assert(from@ == to@);
                        }
                    }
                    out
                } else {
                    // append the missing tail of `to`, one element at a time
                    let mut q: usize = flen;
                    proof {
                        if flen == tlen {
                            assert(view_elems(ti@).take(flen as int) =~= view_elems(ti@).take(
                                tlen as int,
                            ));
                        }
                        assert(view_elems(fi@).skip(flen as int) =~= Seq::<Json>::empty());
                        assert(view_elems(ti@).take(flen as int) + view_elems(fi@).skip(flen as int)
                            =~= view_elems(ti@).take(flen as int));
                    }
                    while q < tlen
                        invariant
                            flen <= q <= tlen,
                            flen == fi@.len(),
                            tlen == ti@.len(),
                            *from == JsonValue::Array(*fi),
                            *to == JsonValue::Array(*ti),
                            from@ == Json::Arr(view_elems(fi@)),
                            to@ == Json::Arr(view_elems(ti@)),
                            apply_entries(from@, view_entries(out@)) == Some(
                                Json::Arr(view_elems(ti@).take(q as int)),
                            ),
                            roots_replace(view_entries(out@)),
                        decreases tlen - q,
                    {
                        let ghost tseq = view_elems(ti@);
                        let e = PatchEntry::new(
                            PatchOp::Add,
                            idx_path(q),
                            Some(json_clone(&ti[q])),
                        );
                        let ghost old_entries = view_entries(out@);
                        out.push(e);
                        proof {
                            assert(view_entries(out@) =~= old_entries.push(e@));
                            lemma_apply_entries_push(from@, old_entries, e@);
                            let dd = tseq.take(q as int);
                            assert(dd.len() == q);
                            assert(tseq[q as int] == ti@[q as int]@);
                            assert(dd.insert(q as int, tseq[q as int]) =~= tseq.take(q as int + 1));
                            assert(apply_entry(Json::Arr(dd), e@.op, e@.path, e@.value) == Some(
                                Json::Arr(tseq.take(q as int + 1)),
                            ));
                        }
                        q = q + 1;
                    }
                    proof {
                        assert(view_elems(ti@).take(tlen as int) =~= view_elems(ti@));
                        if out@.len() == 0 {
                            assert(view_entries(out@) =~= Seq::<Entry>::empty());
                            assert(from@ == to@);
                        }
                    }
                    out
                }
            },
            _ => {
                let out = whole_replace(to);
                proof {
                    let es = view_entries(out@);
                    assert(es.len() == 1);
                    assert(es[0].path.len() == 0);
                    assert(apply_entry(from@, es[0].op, es[0].path, es[0].value) == Some(to@));
                    assert(es.drop_first() =~= Seq::<Entry>::empty());
                    assert(apply_entries(to@, Seq::<Entry>::empty()) == Some(to@));
                    assert(apply_entries(from@, es) == Some(to@));
                    assert(out@.len() == 1);
                }
                out
            },
        },
        _ => {
                let out = whole_replace(to);
                proof {
                    let es = view_entries(out@);
                    assert(es.len() == 1);
                    assert(es[0].path.len() == 0);
                    assert(apply_entry(from@, es[0].op, es[0].path, es[0].value) == Some(to@));
                    assert(es.drop_first() =~= Seq::<Entry>::empty());
                    assert(apply_entries(to@, Seq::<Entry>::empty()) == Some(to@));
                    assert(apply_entries(from@, es) == Some(to@));
                    assert(out@.len() == 1);
                }
                out
            },
    }
}

} // verus!
