//! The group index: label to variants.
//!
//! Built once per generation pass by walking the variants in declaration
//! order and, for each resolved label, appending the variant's position to
//! that label's bucket, creating the bucket on first sight. While
//! inserting, a label that equals its own variant's identifier after
//! lowercasing is rejected.

use vstd::prelude::*;

use crate::ast::{ErrorKind, GroupError, VariantDecl};
use crate::parse::{extract_variant_labels, spec_variant_labels};
use crate::text::{lower_of, lowercase};

verus! {

/// One bucket of the index: a label and the positions, in declaration
/// order, of the variants that carry it.
pub struct GroupBucket {
    pub label: String,
    pub members: Vec<usize>,
}

/// The mathematical shape of a bucket.
pub struct BucketView {
    pub label: Seq<char>,
    pub members: Seq<usize>,
}

impl View for GroupBucket {
    type V = BucketView;

    open spec fn view(&self) -> BucketView {
        BucketView { label: self.label@, members: self.members@ }
    }
}

pub open spec fn buckets_view(v: Vec<GroupBucket>) -> Seq<BucketView> {
    v@.map(|i: int, b: GroupBucket| b@)
}

pub open spec fn buckets_result_view(r: Result<Vec<GroupBucket>, GroupError>) -> Result<
    Seq<BucketView>,
    GroupError,
> {
    match r {
        Ok(v) => Ok(buckets_view(v)),
        Err(e) => Err(e),
    }
}

/// Where `label`'s bucket stands: the first position carrying it, or the
/// length when no bucket does.
pub open spec fn spec_bucket_index(groups: Seq<BucketView>, label: Seq<char>) -> int
    decreases groups.len(),
{
    if groups.len() == 0 {
        0
    } else if groups[0].label == label {
        0
    } else {
        1 + spec_bucket_index(groups.subrange(1, groups.len() as int), label)
    }
}

/// `spec_bucket_index` finds the first bucket with the label, if any.
pub proof fn lemma_bucket_index(groups: Seq<BucketView>, label: Seq<char>)
    ensures
        0 <= spec_bucket_index(groups, label) <= groups.len(),
        spec_bucket_index(groups, label) < groups.len() ==> groups[spec_bucket_index(
            groups,
            label,
        )].label == label,
        forall|k: int|
            0 <= k < spec_bucket_index(groups, label) ==> (#[trigger] groups[k]).label != label,
    decreases groups.len(),
{
    if groups.len() > 0 && groups[0].label != label {
        let tail = groups.subrange(1, groups.len() as int);
        lemma_bucket_index(tail, label);
        assert forall|k: int|
            0 <= k < spec_bucket_index(groups, label) implies (#[trigger] groups[k]).label
            != label by {
            if k > 0 {
                assert(groups[k] == tail[k - 1]);
            }
        }
    }
}

/// Append `vi` to `label`'s bucket, creating the bucket at the end when
/// the label is new.
pub open spec fn spec_add_label(groups: Seq<BucketView>, label: Seq<char>, vi: usize) -> Seq<
    BucketView,
> {
    let j = spec_bucket_index(groups, label);
    if j < groups.len() {
        groups.update(j, BucketView { label: groups[j].label, members: groups[j].members.push(vi) })
    } else {
        groups.push(BucketView { label, members: seq![vi] })
    }
}

/// Insert variant `vi` under each of its labels in order, rejecting a
/// label that lowercases to the variant's own lowercased identifier.
pub open spec fn spec_add_variant_labels(
    groups: Seq<BucketView>,
    labels: Seq<Seq<char>>,
    vident: Seq<char>,
    vspan: u64,
    vi: usize,
) -> Result<Seq<BucketView>, GroupError>
    decreases labels.len(),
{
    if labels.len() == 0 {
        Ok(groups)
    } else if lower_of(labels[0]) == lower_of(vident) {
        Err(GroupError { kind: ErrorKind::GroupNameEqualsVariantName, span: vspan })
    } else {
        spec_add_variant_labels(
            spec_add_label(groups, labels[0], vi),
            labels.subrange(1, labels.len() as int),
            vident,
            vspan,
            vi,
        )
    }
}

/// Fold the variants from position `i` on into the index.
pub open spec fn spec_build_groups_from(
    variants: Seq<VariantDecl>,
    i: int,
    groups: Seq<BucketView>,
) -> Result<Seq<BucketView>, GroupError>
    decreases variants.len() - i,
{
    if i < 0 || i >= variants.len() {
        Ok(groups)
    } else {
        match spec_variant_labels(variants[i]) {
            Err(e) => Err(e),
            Ok(ls) => match spec_add_variant_labels(
                groups,
                ls,
                variants[i].ident@,
                variants[i].span,
                i as usize,
            ) {
                Err(e) => Err(e),
                Ok(g2) => spec_build_groups_from(variants, i + 1, g2),
            },
        }
    }
}

/// The whole index of a variant list.
pub open spec fn spec_extract_groups(variants: Seq<VariantDecl>) -> Result<
    Seq<BucketView>,
    GroupError,
> {
    spec_build_groups_from(variants, 0, Seq::empty())
}

/// Every bucket member indexes a variant: it is below `n`.
pub open spec fn members_bounded(groups: Seq<BucketView>, n: int) -> bool {
    forall|j: int, t: int|
        0 <= j < groups.len() && 0 <= t < groups[j].members.len() ==> (#[trigger] groups[j].members[t])
            < n
}

proof fn lemma_add_label_bounded(groups: Seq<BucketView>, label: Seq<char>, vi: usize, n: int)
    requires
        members_bounded(groups, n),
        vi < n,
    ensures
        members_bounded(spec_add_label(groups, label, vi), n),
{
    lemma_bucket_index(groups, label);
    let g2 = spec_add_label(groups, label, vi);
    let bi = spec_bucket_index(groups, label);
    assert forall|j: int, t: int|
        0 <= j < g2.len() && 0 <= t < g2[j].members.len() implies (#[trigger] g2[j].members[t])
        < n by {
        if bi < groups.len() {
            if j != bi {
                assert(g2[j] == groups[j]);
            }
        } else {
            if j < groups.len() {
                assert(g2[j] == groups[j]);
            }
        }
    }
}

proof fn lemma_add_variant_labels_bounded(
    groups: Seq<BucketView>,
    labels: Seq<Seq<char>>,
    vident: Seq<char>,
    vspan: u64,
    vi: usize,
    n: int,
)
    requires
        members_bounded(groups, n),
        vi < n,
        spec_add_variant_labels(groups, labels, vident, vspan, vi) is Ok,
    ensures
        members_bounded(spec_add_variant_labels(groups, labels, vident, vspan, vi)->Ok_0, n),
    decreases labels.len(),
{
    if labels.len() > 0 && lower_of(labels[0]) != lower_of(vident) {
        lemma_add_label_bounded(groups, labels[0], vi, n);
        lemma_add_variant_labels_bounded(
            spec_add_label(groups, labels[0], vi),
            labels.subrange(1, labels.len() as int),
            vident,
            vspan,
            vi,
            n,
        );
    }
}

proof fn lemma_build_groups_bounded(variants: Seq<VariantDecl>, i: int, groups: Seq<BucketView>)
    requires
        0 <= i,
        members_bounded(groups, variants.len() as int),
        spec_build_groups_from(variants, i, groups) is Ok,
    ensures
        members_bounded(spec_build_groups_from(variants, i, groups)->Ok_0, variants.len() as int),
    decreases variants.len() - i,
{
    if i < variants.len() {
        let ls = spec_variant_labels(variants[i])->Ok_0;
        lemma_add_variant_labels_bounded(
            groups,
            ls,
            variants[i].ident@,
            variants[i].span,
            i as usize,
            variants.len() as int,
        );
        lemma_build_groups_bounded(
            variants,
            i + 1,
            spec_add_variant_labels(groups, ls, variants[i].ident@, variants[i].span, i as usize)->Ok_0,
        );
    }
}

/// A successfully built index only mentions variants that exist.
pub proof fn lemma_extract_groups_bounded(variants: Seq<VariantDecl>)
    requires
        spec_extract_groups(variants) is Ok,
    ensures
        members_bounded(spec_extract_groups(variants)->Ok_0, variants.len() as int),
{
    lemma_build_groups_bounded(variants, 0, Seq::empty());
}

/// Find `label`'s bucket, or the length when no bucket carries it.
fn find_bucket(groups: &Vec<GroupBucket>, label: &String) -> (r: usize)
    ensures
        r == spec_bucket_index(buckets_view(*groups), label@),
{
    proof {
        lemma_bucket_index(buckets_view(*groups), label@);
    }
    let mut j: usize = 0;
    while j < groups.len()
        invariant
            j <= groups@.len(),
            forall|k: int| 0 <= k < j ==> (#[trigger] buckets_view(*groups)[k]).label != label@,
            spec_bucket_index(buckets_view(*groups), label@) >= j || (
            spec_bucket_index(buckets_view(*groups), label@) < groups@.len() && buckets_view(
                *groups,
            )[spec_bucket_index(buckets_view(*groups), label@)].label == label@),
            0 <= spec_bucket_index(buckets_view(*groups), label@) <= groups@.len(),
            spec_bucket_index(buckets_view(*groups), label@) < groups@.len() ==> buckets_view(
                *groups,
            )[spec_bucket_index(buckets_view(*groups), label@)].label == label@,
            forall|k: int|
                0 <= k < spec_bucket_index(buckets_view(*groups), label@) ==> (
                #[trigger] buckets_view(*groups)[k]).label != label@,
        decreases groups@.len() - j,
    {
        if groups[j].label.eq(label) {
            proof {
                assert(buckets_view(*groups)[j as int] == groups@[j as int]@);
            }
            return j;
        }
        proof {
            assert(buckets_view(*groups)[j as int] == groups@[j as int]@);
        }
        j += 1;
    }
    groups.len()
}

/// Append `vi` under `label`, creating the bucket when the label is new.
fn insert_into_bucket(groups: &mut Vec<GroupBucket>, label: String, vi: usize)
    ensures
        buckets_view(*final(groups)) == spec_add_label(buckets_view(*old(groups)), label@, vi),
{
    let j = find_bucket(groups, &label);
    if j < groups.len() {
        groups[j].members.push(vi);
        proof {
            assert(buckets_view(*groups) =~~= spec_add_label(
                buckets_view(*old(groups)),
                label@,
                vi,
            ));
        }
    } else {
        let mut members: Vec<usize> = Vec::new();
        members.push(vi);
        groups.push(GroupBucket { label, members });
        proof {
            assert(buckets_view(*groups) =~~= spec_add_label(
                buckets_view(*old(groups)),
                label@,
                vi,
            ));
        }
    }
}

/// Build the whole index for a variant list, inverting the
/// variant-to-labels relation into label-to-variants.
pub fn extract_groups(variants: &Vec<VariantDecl>) -> (r: Result<Vec<GroupBucket>, GroupError>)
    ensures
        buckets_result_view(r) == spec_extract_groups(variants@),
{
    let mut groups: Vec<GroupBucket> = Vec::new();
    proof {
        assert(buckets_view(groups) =~= Seq::<BucketView>::empty());
    }
    let mut i: usize = 0;
    while i < variants.len()
        invariant
            i <= variants@.len(),
            spec_build_groups_from(variants@, i as int, buckets_view(groups))
                == spec_extract_groups(variants@),
        decreases variants@.len() - i,
    {
        let v = &variants[i];
        let labels = match extract_variant_labels(v) {
            Err(e) => {
                proof {
                    assert(spec_build_groups_from(variants@, i as int, buckets_view(groups))
                        == Err::<Seq<BucketView>, GroupError>(e));
                }
                return Err(e);
            },
            Ok(ls) => ls,
        };
        let low_ident = lowercase(v.ident.as_str());
        let ghost entry_groups = buckets_view(groups);
        let ghost lv = labels.deep_view();
        proof {
            assert(lv.subrange(0, lv.len() as int) =~= lv);
        }
        let mut k: usize = 0;
        while k < labels.len()
            invariant
                k <= labels@.len(),
                i < variants@.len(),
                lv == labels.deep_view(),
                lv.len() == labels@.len(),
                low_ident@ == lower_of(variants@[i as int].ident@),
                spec_variant_labels(variants@[i as int]) == Ok::<Seq<Seq<char>>, GroupError>(lv),
                spec_build_groups_from(variants@, i as int, entry_groups) == spec_extract_groups(
                    variants@,
                ),
                spec_add_variant_labels(
                    buckets_view(groups),
                    lv.subrange(k as int, lv.len() as int),
                    variants@[i as int].ident@,
                    variants@[i as int].span,
                    i,
                ) == spec_add_variant_labels(
                    entry_groups,
                    lv,
                    variants@[i as int].ident@,
                    variants@[i as int].span,
                    i,
                ),
            decreases labels@.len() - k,
        {
            proof {
                assert(labels@[k as int]@ == lv[k as int]);
                assert(lv.subrange(k as int, lv.len() as int)[0] == lv[k as int]);
            }
            let low_label = lowercase(labels[k].as_str());
            if low_label.eq(&low_ident) {
                let e = GroupError {
                    kind: ErrorKind::GroupNameEqualsVariantName,
                    span: variants[i].span,
                };
                proof {
                    assert(spec_add_variant_labels(
                        buckets_view(groups),
                        lv.subrange(k as int, lv.len() as int),
                        variants@[i as int].ident@,
                        variants@[i as int].span,
                        i,
                    ) == Err::<Seq<BucketView>, GroupError>(e));
                    assert(spec_build_groups_from(variants@, i as int, entry_groups)
                        == Err::<Seq<BucketView>, GroupError>(e));
                }
                return Err(e);
            }
            insert_into_bucket(&mut groups, labels[k].clone(), i);
            proof {
                assert(lv.subrange(k as int, lv.len() as int).subrange(
                    1,
                    lv.len() as int - k,
                ) =~= lv.subrange(k as int + 1, lv.len() as int));
            }
            k += 1;
        }
        proof {
            assert(lv.subrange(lv.len() as int, lv.len() as int) =~= Seq::<Seq<char>>::empty());
            assert(spec_add_variant_labels(
                entry_groups,
                lv,
                variants@[i as int].ident@,
                variants@[i as int].span,
                i,
            ) == Ok::<Seq<BucketView>, GroupError>(buckets_view(groups)));
            assert(spec_build_groups_from(variants@, i as int, entry_groups)
                == spec_build_groups_from(variants@, i as int + 1, buckets_view(groups)));
        }
        i += 1;
    }
    Ok(groups)
}

} // verus!
