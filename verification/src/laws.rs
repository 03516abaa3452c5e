//! What the generated declarations are proved to mean.
//!
//! The statements here tie the three stages together: the labels a
//! variant declares, the index built from them, and the behaviour of the
//! emitted matches. Each public proof function states one guarantee of
//! the generator for every well-formed input.

use vstd::prelude::*;

use crate::ast::{distinct_variant_idents, GroupError, Meta, VariantDecl};
use crate::context::{
    spec_generate, spec_group_fn, spec_group_fns, spec_name_fn, spec_self_fns, spec_variant_arm,
};
use crate::index::{
    lemma_extract_groups_bounded, spec_add_label, spec_add_variant_labels, spec_bucket_index,
    spec_build_groups_from, spec_extract_groups, lemma_bucket_index, BucketView,
};
use crate::output::{spec_arms_match, spec_name_lookup, GenFnView, NameArmView};
use crate::parse::{
    spec_groups_attr, spec_label_of_path, spec_labels_of_arg, spec_labels_of_args,
    spec_variant_labels, with_prefix,
};

verus! {

/// No two buckets of the index carry the same label.
pub open spec fn distinct_labels(groups: Seq<BucketView>) -> bool {
    forall|a: int, b: int|
        #![trigger groups[a], groups[b]]
        0 <= a < b < groups.len() ==> groups[a].label != groups[b].label
}

/// Some bucket carries label `l` and lists member `m`.
pub open spec fn index_has(groups: Seq<BucketView>, l: Seq<char>, m: usize) -> bool {
    exists|j: int|
        0 <= j < groups.len() && (#[trigger] groups[j]).label == l && groups[j].members.contains(m)
}

/// Some bucket carries label `l`.
pub open spec fn has_bucket(groups: Seq<BucketView>, l: Seq<char>) -> bool {
    exists|j: int| 0 <= j < groups.len() && (#[trigger] groups[j]).label == l
}

/// Variant `m` resolves its labels successfully and they contain `l`.
pub open spec fn variant_has_label(variants: Seq<VariantDecl>, m: int, l: Seq<char>) -> bool {
    &&& spec_variant_labels(variants[m]) is Ok
    &&& spec_variant_labels(variants[m])->Ok_0.contains(l)
}

/// Each bucket lists its members in declaration order: positions never
/// decrease along the list.
pub open spec fn members_in_declaration_order(groups: Seq<BucketView>) -> bool {
    forall|j: int, t1: int, t2: int|
        #![trigger groups[j].members[t1], groups[j].members[t2]]
        0 <= j < groups.len() && 0 <= t1 < t2 < groups[j].members.len()
            ==> groups[j].members[t1] <= groups[j].members[t2]
}

proof fn lemma_add_label_effect(groups: Seq<BucketView>, label: Seq<char>, vi: usize)
    requires
        distinct_labels(groups),
        members_in_declaration_order(groups),
        forall|l: Seq<char>, m: usize| index_has(groups, l, m) ==> m <= vi,
    ensures
        members_in_declaration_order(spec_add_label(groups, label, vi)),
        distinct_labels(spec_add_label(groups, label, vi)),
        forall|l: Seq<char>, m: usize|
            #![trigger index_has(spec_add_label(groups, label, vi), l, m)]
            index_has(spec_add_label(groups, label, vi), l, m) <==> (index_has(groups, l, m) || (l
                == label && m == vi)),
        forall|l: Seq<char>|
            #![trigger has_bucket(spec_add_label(groups, label, vi), l)]
            has_bucket(spec_add_label(groups, label, vi), l) <==> (has_bucket(groups, l) || l
                == label),
{
    lemma_bucket_index(groups, label);
    let g2 = spec_add_label(groups, label, vi);
    let bi = spec_bucket_index(groups, label);
    assert forall|j: int, t1: int, t2: int|
        #![trigger g2[j].members[t1], g2[j].members[t2]]
        0 <= j < g2.len() && 0 <= t1 < t2 < g2[j].members.len() implies g2[j].members[t1]
        <= g2[j].members[t2] by {
        if j < groups.len() && (bi >= groups.len() || j != bi) {
            assert(g2[j] == groups[j]);
        } else if bi < groups.len() && j == bi {
            assert(g2[j].members == groups[j].members.push(vi));
            if t2 < groups[j].members.len() {
                assert(g2[j].members[t1] == groups[j].members[t1]);
                assert(g2[j].members[t2] == groups[j].members[t2]);
            } else {
                assert(g2[j].members[t2] == vi);
                assert(groups[j].members.contains(groups[j].members[t1]));
                assert(index_has(groups, groups[j].label, groups[j].members[t1]));
                assert(g2[j].members[t1] <= vi);
            }
        } else {
            assert(g2[j].members == seq![vi]);
        }
    }
    if bi < groups.len() {
        assert forall|l: Seq<char>, m: usize|
            #![trigger index_has(g2, l, m)]
            index_has(g2, l, m) <==> (index_has(groups, l, m) || (l == label && m
                == vi)) by {
            if index_has(g2, l, m) {
                let j = choose|j: int|
                    0 <= j < g2.len() && (#[trigger] g2[j]).label == l && g2[j].members.contains(m);
                if j == bi {
                    let t = choose|t: int| 0 <= t < g2[j].members.len() && g2[j].members[t] == m;
                    if t < groups[j].members.len() {
                        assert(groups[j].members[t] == m);
                        assert(index_has(groups, l, m));
                    } else {
                        assert(m == vi && l == label);
                    }
                } else {
                    assert(groups[j] == g2[j]);
                    assert(index_has(groups, l, m));
                }
            }
            if index_has(groups, l, m) {
                let j = choose|j: int|
                    0 <= j < groups.len() && (#[trigger] groups[j]).label == l
                        && groups[j].members.contains(m);
                let t = choose|t: int|
                    0 <= t < groups[j].members.len() && groups[j].members[t] == m;
                if j == bi {
                    assert(g2[j].members[t] == m);
                    assert(g2[j].members.contains(m));
                } else {
                    assert(g2[j] == groups[j]);
                }
                assert(index_has(g2, l, m));
            }
            if l == label && m == vi {
                assert(g2[bi].label == label);
                assert(g2[bi].members[g2[bi].members.len() - 1] == vi);
                assert(g2[bi].members.contains(m));
                assert(index_has(g2, l, m));
            }
        }
        assert forall|l: Seq<char>|
            #![trigger has_bucket(g2, l)]
            has_bucket(g2, l) <==> (has_bucket(groups, l) || l == label) by {
            if has_bucket(g2, l) {
                let j = choose|j: int| 0 <= j < g2.len() && (#[trigger] g2[j]).label == l;
                assert(groups[j].label == l);
                assert(has_bucket(groups, l));
            }
            if has_bucket(groups, l) {
                let j = choose|j: int| 0 <= j < groups.len() && (#[trigger] groups[j]).label == l;
                assert(g2[j].label == l);
                assert(has_bucket(g2, l));
            }
            if l == label {
                assert(groups[bi].label == l);
                assert(has_bucket(groups, l));
            }
        }
        assert forall|a: int, b: int|
            #![trigger g2[a], g2[b]]
            0 <= a < b < g2.len() implies g2[a].label != g2[b].label by {
            assert(g2[a].label == groups[a].label);
            assert(g2[b].label == groups[b].label);
        }
    } else {
        assert forall|l: Seq<char>, m: usize|
            #![trigger index_has(g2, l, m)]
            index_has(g2, l, m) <==> (index_has(groups, l, m) || (l == label && m
                == vi)) by {
            if index_has(g2, l, m) {
                let j = choose|j: int|
                    0 <= j < g2.len() && (#[trigger] g2[j]).label == l && g2[j].members.contains(m);
                if j < groups.len() {
                    assert(groups[j] == g2[j]);
                    assert(index_has(groups, l, m));
                } else {
                    assert(g2[j].members == seq![vi]);
                    let t = choose|t: int| 0 <= t < g2[j].members.len() && g2[j].members[t] == m;
                    assert(g2[j].members[0] == vi);
                    assert(m == vi && l == label);
                }
            }
            if index_has(groups, l, m) {
                let j = choose|j: int|
                    0 <= j < groups.len() && (#[trigger] groups[j]).label == l
                        && groups[j].members.contains(m);
                assert(g2[j] == groups[j]);
                assert(index_has(g2, l, m));
            }
            if l == label && m == vi {
                assert(g2[groups.len() as int].label == label);
                assert(g2[groups.len() as int].members[0] == vi);
                assert(g2[groups.len() as int].members.contains(m));
                assert(index_has(g2, l, m));
            }
        }
        assert forall|l: Seq<char>|
            #![trigger has_bucket(g2, l)]
            has_bucket(g2, l) <==> (has_bucket(groups, l) || l == label) by {
            if has_bucket(g2, l) {
                let j = choose|j: int| 0 <= j < g2.len() && (#[trigger] g2[j]).label == l;
                if j < groups.len() {
                    assert(groups[j].label == l);
                    assert(has_bucket(groups, l));
                } else {
                    assert(l == label);
                }
            }
            if has_bucket(groups, l) {
                let j = choose|j: int| 0 <= j < groups.len() && (#[trigger] groups[j]).label == l;
                assert(g2[j].label == l);
                assert(has_bucket(g2, l));
            }
            if l == label {
                assert(g2[groups.len() as int].label == l);
                assert(has_bucket(g2, l));
            }
        }
        assert forall|a: int, b: int|
            #![trigger g2[a], g2[b]]
            0 <= a < b < g2.len() implies g2[a].label != g2[b].label by {
            if b < groups.len() {
                assert(g2[a].label == groups[a].label);
                assert(g2[b].label == groups[b].label);
            } else {
                assert(g2[b].label == label);
                assert(g2[a].label == groups[a].label);
            }
        }
    }
}

proof fn lemma_add_labels_effect(
    groups: Seq<BucketView>,
    labels: Seq<Seq<char>>,
    vident: Seq<char>,
    vspan: u64,
    vi: usize,
)
    requires
        distinct_labels(groups),
        members_in_declaration_order(groups),
        forall|l: Seq<char>, m: usize| index_has(groups, l, m) ==> m <= vi,
        spec_add_variant_labels(groups, labels, vident, vspan, vi) is Ok,
    ensures
        members_in_declaration_order(
            spec_add_variant_labels(groups, labels, vident, vspan, vi)->Ok_0,
        ),
        distinct_labels(spec_add_variant_labels(groups, labels, vident, vspan, vi)->Ok_0),
        forall|l: Seq<char>, m: usize|
            #![trigger index_has(spec_add_variant_labels(groups, labels, vident, vspan, vi)->Ok_0, l, m)]
            index_has(spec_add_variant_labels(groups, labels, vident, vspan, vi)->Ok_0, l, m) <==> (
            index_has(groups, l, m) || (labels.contains(l) && m == vi)),
        forall|l: Seq<char>|
            #![trigger has_bucket(spec_add_variant_labels(groups, labels, vident, vspan, vi)->Ok_0, l)]
            has_bucket(spec_add_variant_labels(groups, labels, vident, vspan, vi)->Ok_0, l) <==> (
            has_bucket(groups, l) || labels.contains(l)),
    decreases labels.len(),
{
    let gs = spec_add_variant_labels(groups, labels, vident, vspan, vi)->Ok_0;
    if labels.len() == 0 {
        assert(forall|l: Seq<char>| !labels.contains(l));
    } else {
        let g1 = spec_add_label(groups, labels[0], vi);
        let tail = labels.subrange(1, labels.len() as int);
        lemma_add_label_effect(groups, labels[0], vi);
        lemma_add_labels_effect(g1, tail, vident, vspan, vi);
        assert forall|l: Seq<char>| #[trigger]
            labels.contains(l) implies (l == labels[0] || tail.contains(l)) by {
            let t = choose|t: int| 0 <= t < labels.len() && labels[t] == l;
            if t > 0 {
                assert(tail[t - 1] == l);
            }
        }
        assert forall|l: Seq<char>| #[trigger]
            tail.contains(l) implies labels.contains(l) by {
            let t = choose|t: int| 0 <= t < tail.len() && tail[t] == l;
            assert(labels[t + 1] == l);
        }
        assert(labels.contains(labels[0]));
    }
}

proof fn lemma_build_effect(variants: Seq<VariantDecl>, i: int, acc: Seq<BucketView>)
    requires
        0 <= i <= variants.len(),
        variants.len() <= usize::MAX,
        distinct_labels(acc),
        members_in_declaration_order(acc),
        spec_build_groups_from(variants, i, acc) is Ok,
        forall|l: Seq<char>, m: usize|
            #![trigger index_has(acc, l, m)]
            index_has(acc, l, m) <==> ((m as int) < i && variant_has_label(variants, m as int, l)),
        forall|l: Seq<char>|
            #![trigger has_bucket(acc, l)]
            has_bucket(acc, l) <==> exists|m: int| 0 <= m < i && variant_has_label(variants, m, l),
    ensures
        members_in_declaration_order(spec_build_groups_from(variants, i, acc)->Ok_0),
        distinct_labels(spec_build_groups_from(variants, i, acc)->Ok_0),
        forall|l: Seq<char>, m: usize|
            #![trigger index_has(spec_build_groups_from(variants, i, acc)->Ok_0, l, m)]
            index_has(spec_build_groups_from(variants, i, acc)->Ok_0, l, m) <==> ((m as int)
                < variants.len() && variant_has_label(variants, m as int, l)),
        forall|l: Seq<char>|
            #![trigger has_bucket(spec_build_groups_from(variants, i, acc)->Ok_0, l)]
            has_bucket(spec_build_groups_from(variants, i, acc)->Ok_0, l) <==> exists|m: int|
                0 <= m < variants.len() && variant_has_label(variants, m, l),
    decreases variants.len() - i,
{
    if i < variants.len() {
        let ls = spec_variant_labels(variants[i])->Ok_0;
        assert(spec_variant_labels(variants[i]) is Ok);
        assert(spec_add_variant_labels(acc, ls, variants[i].ident@, variants[i].span, i as usize)
            is Ok);
        let acc2 = spec_add_variant_labels(acc, ls, variants[i].ident@, variants[i].span, i as usize)->Ok_0;
        assert forall|l: Seq<char>, m: usize| index_has(acc, l, m) implies m <= i as usize by {
            assert((m as int) < i);
        }
        lemma_add_labels_effect(acc, ls, variants[i].ident@, variants[i].span, i as usize);
        assert forall|l: Seq<char>, m: usize|
            #![trigger index_has(acc2, l, m)]
            index_has(acc2, l, m) <==> ((m as int) < i + 1 && variant_has_label(
                variants,
                m as int,
                l,
            )) by {
            assert(index_has(acc2, l, m) <==> (index_has(acc, l, m) || (ls.contains(l) && m
                == i as usize)));
        }
        assert forall|l: Seq<char>|
            #![trigger has_bucket(acc2, l)]
            has_bucket(acc2, l) <==> exists|m: int|
                0 <= m < i + 1 && variant_has_label(variants, m, l) by {
            if has_bucket(acc2, l) {
                if has_bucket(acc, l) {
                    let m = choose|m: int| 0 <= m < i && variant_has_label(variants, m, l);
                    assert(0 <= m < i + 1 && variant_has_label(variants, m, l));
                } else {
                    assert(ls.contains(l));
                    assert(variant_has_label(variants, i, l));
                }
            }
            if exists|m: int| 0 <= m < i + 1 && variant_has_label(variants, m, l) {
                let m = choose|m: int| 0 <= m < i + 1 && variant_has_label(variants, m, l);
                if m < i {
                    assert(has_bucket(acc, l));
                } else {
                    assert(ls.contains(l));
                }
                assert(has_bucket(acc2, l));
            }
        }
        lemma_build_effect(variants, i + 1, acc2);
    }
}

/// The index lists exactly the declared memberships: a successfully
/// built index has one bucket per declared label, no two buckets share a
/// label, and bucket `j` lists exactly the variants whose resolved labels
/// contain its label.
pub proof fn lemma_index_correct(variants: Seq<VariantDecl>)
    requires
        variants.len() <= usize::MAX,
        spec_extract_groups(variants) is Ok,
    ensures
        members_in_declaration_order(spec_extract_groups(variants)->Ok_0),
        distinct_labels(spec_extract_groups(variants)->Ok_0),
        forall|j: int, m: usize|
            #![trigger spec_extract_groups(variants)->Ok_0[j].members.contains(m)]
            0 <= j < spec_extract_groups(variants)->Ok_0.len() ==> (spec_extract_groups(
                variants,
            )->Ok_0[j].members.contains(m) <==> ((m as int) < variants.len() && variant_has_label(
                variants,
                m as int,
                spec_extract_groups(variants)->Ok_0[j].label,
            ))),
        forall|l: Seq<char>|
            #![trigger has_bucket(spec_extract_groups(variants)->Ok_0, l)]
            has_bucket(spec_extract_groups(variants)->Ok_0, l) <==> exists|m: int|
                0 <= m < variants.len() && variant_has_label(variants, m, l),
{
    let gs = spec_extract_groups(variants)->Ok_0;
    assert(forall|l: Seq<char>, m: usize| !index_has(Seq::<BucketView>::empty(), l, m));
    assert(forall|l: Seq<char>| !has_bucket(Seq::<BucketView>::empty(), l));
    lemma_build_effect(variants, 0, Seq::empty());
    assert forall|j: int, m: usize|
        #![trigger gs[j].members.contains(m)]
        0 <= j < gs.len() implies (gs[j].members.contains(m) <==> ((m as int) < variants.len()
            && variant_has_label(variants, m as int, gs[j].label))) by {
        if gs[j].members.contains(m) {
            assert(index_has(gs, gs[j].label, m));
        }
        if (m as int) < variants.len() && variant_has_label(variants, m as int, gs[j].label) {
            assert(index_has(gs, gs[j].label, m));
            let j2 = choose|j2: int|
                0 <= j2 < gs.len() && (#[trigger] gs[j2]).label == gs[j].label
                    && gs[j2].members.contains(m);
            if j2 != j {
                if j2 < j {
                    assert(gs[j2].label != gs[j].label);
                } else {
                    assert(gs[j].label != gs[j2].label);
                }
            }
        }
    }
}

/// How the emitted block is laid out: first one predicate per group
/// label in index order, then one self-naming predicate per variant in
/// declaration order, then the name accessor, and nothing else.
pub proof fn lemma_generate_layout(
    vis: Seq<char>,
    type_ident: Seq<char>,
    generics: Seq<char>,
    variants: Seq<VariantDecl>,
    groups: Seq<BucketView>,
)
    ensures
        ({
            let fns = spec_generate(vis, type_ident, generics, variants, groups).fns;
            &&& fns.len() == groups.len() + variants.len() + 1
            &&& forall|j: int|
                0 <= j < groups.len() ==> #[trigger] fns[j] == spec_group_fn(
                    vis,
                    groups[j].label,
                    groups[j].members,
                    variants,
                )
            &&& forall|k: int|
                0 <= k < variants.len() ==> #[trigger] fns[groups.len() + k] == spec_group_fn(
                    vis,
                    variants[k].ident@,
                    seq![k as usize],
                    variants,
                )
            &&& fns[fns.len() - 1] == spec_name_fn(vis, variants)
        }),
{
    let fns = spec_generate(vis, type_ident, generics, variants, groups).fns;
    assert(fns.len() == groups.len() + variants.len() + 1);
    assert forall|j: int|
        0 <= j < groups.len() implies #[trigger] fns[j] == spec_group_fn(
        vis,
        groups[j].label,
        groups[j].members,
        variants,
    ) by {
        assert(fns[j] == spec_group_fns(vis, groups, variants)[j]);
    }
    assert forall|k: int|
        0 <= k < variants.len() implies #[trigger] fns[groups.len() + k] == spec_group_fn(
        vis,
        variants[k].ident@,
        seq![k as usize],
        variants,
    ) by {
        assert(fns[groups.len() + k] == spec_self_fns(vis, variants)[k]);
    }
}

/// Every group predicate tests its bucket exactly: for each bucket `j`
/// of a successfully built index and each variant `m`, the emitted
/// `is_<label>` match answers true on `m`'s identifier exactly when `m`'s
/// resolved labels contain the bucket's label.
pub proof fn lemma_group_predicate_exact(
    vis: Seq<char>,
    variants: Seq<VariantDecl>,
    j: int,
    m: int,
)
    requires
        variants.len() <= usize::MAX,
        distinct_variant_idents(variants),
        spec_extract_groups(variants) is Ok,
        0 <= j < spec_extract_groups(variants)->Ok_0.len(),
        0 <= m < variants.len(),
    ensures
        ({
            let gs = spec_extract_groups(variants)->Ok_0;
            spec_arms_match(
                spec_group_fns(vis, gs, variants)[j].body->Predicate_arms,
                variants[m].ident@,
            ) <==> variant_has_label(variants, m, gs[j].label)
        }),
{
    let gs = spec_extract_groups(variants)->Ok_0;
    lemma_index_correct(variants);
    lemma_extract_groups_bounded(variants);
    let arms = spec_group_fns(vis, gs, variants)[j].body->Predicate_arms;
    assert(arms == gs[j].members.map(|t: int, mm: usize| spec_variant_arm(variants[mm as int])));
    if spec_arms_match(arms, variants[m].ident@) {
        let t = choose|t: int|
            0 <= t < arms.len() && (#[trigger] arms[t]).ident == variants[m].ident@;
        let mm = gs[j].members[t];
        assert(arms[t] == spec_variant_arm(variants[mm as int]));
        assert(mm < variants.len());
        if mm as int != m {
            if (mm as int) < m {
                assert(variants[mm as int].ident@ != variants[m].ident@);
            } else {
                assert(variants[m].ident@ != variants[mm as int].ident@);
            }
        }
        assert(gs[j].members.contains(m as usize));
        assert(variant_has_label(variants, m, gs[j].label));
    }
    if variant_has_label(variants, m, gs[j].label) {
        assert(gs[j].members.contains(m as usize));
        let t = choose|t: int| 0 <= t < gs[j].members.len() && gs[j].members[t] == m as usize;
        assert(arms[t] == spec_variant_arm(variants[m]));
        assert(arms[t].ident == variants[m].ident@);
        assert(spec_arms_match(arms, variants[m].ident@));
    }
}

/// The self-naming predicate of variant `k` answers true exactly when
/// the active variant is `k` itself, for every variant of the enum.
pub proof fn lemma_self_predicate_exact(vis: Seq<char>, variants: Seq<VariantDecl>, k: int, m: int)
    requires
        variants.len() <= usize::MAX,
        distinct_variant_idents(variants),
        0 <= k < variants.len(),
        0 <= m < variants.len(),
    ensures
        spec_arms_match(
            spec_self_fns(vis, variants)[k].body->Predicate_arms,
            variants[m].ident@,
        ) <==> m == k,
{
    let arms = spec_self_fns(vis, variants)[k].body->Predicate_arms;
    assert(arms == seq![k as usize].map(
        |t: int, mm: usize| spec_variant_arm(variants[mm as int]),
    ));
    assert(arms.len() == 1);
    assert(arms[0] == spec_variant_arm(variants[k]));
    if m == k {
        assert(arms[0].ident == variants[m].ident@);
        assert(spec_arms_match(arms, variants[m].ident@));
    }
    if spec_arms_match(arms, variants[m].ident@) {
        let t = choose|t: int|
            0 <= t < arms.len() && (#[trigger] arms[t]).ident == variants[m].ident@;
        assert(t == 0);
        if m != k {
            if m < k {
                assert(variants[m].ident@ != variants[k].ident@);
            } else {
                assert(variants[k].ident@ != variants[m].ident@);
            }
        }
    }
}

proof fn lemma_name_lookup_unique(arms: Seq<NameArmView>, active: Seq<char>, m: int)
    requires
        0 <= m < arms.len(),
        arms[m].pattern.ident == active,
        forall|u: int|
            0 <= u < arms.len() && u != m ==> (#[trigger] arms[u]).pattern.ident != active,
    ensures
        spec_name_lookup(arms, active) == Some(arms[m].literal),
    decreases arms.len(),
{
    if m == 0 {
    } else {
        let tail = arms.subrange(1, arms.len() as int);
        assert(arms[0].pattern.ident != active);
        assert(tail[m - 1] == arms[m]);
        assert forall|u: int|
            0 <= u < tail.len() && u != m - 1 implies (#[trigger] tail[u]).pattern.ident
            != active by {
            assert(tail[u] == arms[u + 1]);
        }
        lemma_name_lookup_unique(tail, active, m - 1);
    }
}

/// The name accessor returns the active variant's declared identifier,
/// verbatim, whatever the variant's shape or labels.
pub proof fn lemma_variant_name_exact(vis: Seq<char>, variants: Seq<VariantDecl>, m: int)
    requires
        distinct_variant_idents(variants),
        0 <= m < variants.len(),
    ensures
        spec_name_lookup(
            spec_name_fn(vis, variants).body->NameAccessor_name_arms,
            variants[m].ident@,
        ) == Some(variants[m].ident@),
{
    let arms = spec_name_fn(vis, variants).body->NameAccessor_name_arms;
    assert(arms == variants.map(
        |k: int, v: VariantDecl| NameArmView { pattern: spec_variant_arm(v), literal: v.ident@ },
    ));
    assert(arms[m].pattern.ident == variants[m].ident@);
    assert forall|u: int|
        0 <= u < arms.len() && u != m implies (#[trigger] arms[u]).pattern.ident
        != variants[m].ident@ by {
        assert(arms[u].pattern.ident == variants[u].ident@);
        if u < m {
            assert(variants[u].ident@ != variants[m].ident@);
        } else {
            assert(variants[m].ident@ != variants[u].ident@);
        }
    }
    lemma_name_lookup_unique(arms, variants[m].ident@, m);
}

proof fn lemma_build_unlabeled(variants: Seq<VariantDecl>, i: int)
    requires
        0 <= i <= variants.len(),
        forall|k: int|
            0 <= k < variants.len() ==> spec_groups_attr(
                (#[trigger] variants[k]).attrs@,
            ) == Ok::<Option<int>, GroupError>(None),
    ensures
        spec_build_groups_from(variants, i, Seq::empty()) == Ok::<Seq<BucketView>, GroupError>(
            Seq::empty(),
        ),
    decreases variants.len() - i,
{
    if i < variants.len() {
        assert(spec_variant_labels(variants[i]) == Ok::<Seq<Seq<char>>, GroupError>(Seq::empty()));
        lemma_build_unlabeled(variants, i + 1);
    }
}

/// An enum with no `groups` attribute anywhere generates successfully,
/// and emits only the self-naming predicates, one per variant, followed
/// by the name accessor: no group predicate at all.
pub proof fn lemma_no_groups_only_self(
    vis: Seq<char>,
    type_ident: Seq<char>,
    generics: Seq<char>,
    variants: Seq<VariantDecl>,
)
    requires
        forall|k: int|
            0 <= k < variants.len() ==> spec_groups_attr(
                (#[trigger] variants[k]).attrs@,
            ) == Ok::<Option<int>, GroupError>(None),
    ensures
        spec_extract_groups(variants) == Ok::<Seq<BucketView>, GroupError>(Seq::empty()),
        spec_generate(vis, type_ident, generics, variants, Seq::empty()).fns == spec_self_fns(
            vis,
            variants,
        ) + seq![spec_name_fn(vis, variants)],
        spec_generate(vis, type_ident, generics, variants, Seq::empty()).fns.len()
            == variants.len() + 1,
{
    lemma_build_unlabeled(variants, 0);
    assert(spec_group_fns(vis, Seq::empty(), variants) =~= Seq::<GenFnView>::empty());
    assert(spec_generate(vis, type_ident, generics, variants, Seq::empty()).fns =~= spec_self_fns(
        vis,
        variants,
    ) + seq![spec_name_fn(vis, variants)]);
}

/// A nested argument list flattens into compound labels: when the prefix
/// path resolves to `p` and the inner arguments resolve to labels `ls`,
/// the nested list contributes exactly one label `p_l` for each inner
/// label `l`, in order; nesting to any depth flattens recursively.
pub proof fn lemma_nested_labels_flatten(m: Meta)
    requires
        m is List,
        spec_label_of_path(m->List_segments@, m->List_path_span) is Ok,
        spec_labels_of_args(m->List_args@) is Ok,
    ensures
        ({
            let p = spec_label_of_path(m->List_segments@, m->List_path_span)->Ok_0;
            let ls = spec_labels_of_args(m->List_args@)->Ok_0;
            &&& spec_labels_of_arg(m) == Ok::<Seq<Seq<char>>, GroupError>(with_prefix(p, ls))
            &&& with_prefix(p, ls).len() == ls.len()
            &&& forall|t: int|
                0 <= t < ls.len() ==> #[trigger] with_prefix(p, ls)[t] == p + "_"@ + ls[t]
        }),
        spec_labels_of_args(seq![m]) == spec_labels_of_arg(m),
{
    let p = spec_label_of_path(m->List_segments@, m->List_path_span)->Ok_0;
    let ls = spec_labels_of_args(m->List_args@)->Ok_0;
    assert(spec_labels_of_arg(m) == Ok::<Seq<Seq<char>>, GroupError>(with_prefix(p, ls)));
    let single = seq![m];
    assert(single.subrange(1, 1) =~= Seq::<Meta>::empty());
    assert(spec_labels_of_args(single.subrange(1, 1)) == Ok::<Seq<Seq<char>>, GroupError>(
        Seq::empty(),
    ));
    assert(with_prefix(p, ls) + Seq::<Seq<char>>::empty() =~= with_prefix(p, ls));
}

} // verus!
