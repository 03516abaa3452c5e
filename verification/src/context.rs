//! One generation pass over one enum declaration.
//!
//! `EnumGroupContext::new` validates the declaration, resolves every
//! variant's labels and builds the group index; `generate` then emits the
//! impl block: one predicate per group label, one self-naming predicate
//! per variant, and the `variant_name` accessor, in that order.

use vstd::prelude::*;

use crate::ast::{ErrorKind, GroupError, TypeData, TypeDecl, VariantDecl};
use crate::index::{
    buckets_view, extract_groups, lemma_extract_groups_bounded, members_bounded, spec_extract_groups,
    BucketView, GroupBucket,
};
use crate::output::{GenBody, GenBodyView, GenFn, GenFnView, GenImpl, GenImplView, NameArm,
    NameArmView, Pattern, PatternView};
use crate::text::{lowercase, spec_predicate_name};
use vstd::string::StringExecFns;

verus! {

/// The pattern emitted for one variant: its identifier with every field
/// bound in wildcard fashion, whatever the field shape.
pub open spec fn spec_variant_arm(v: VariantDecl) -> PatternView {
    PatternView { ident: v.ident@, shape: v.shape }
}

/// The predicate emitted for one label and the variants in its bucket:
/// `is_<lowercased label>`, matching exactly those variants.
pub open spec fn spec_group_fn(
    vis: Seq<char>,
    label: Seq<char>,
    members: Seq<usize>,
    variants: Seq<VariantDecl>,
) -> GenFnView {
    GenFnView {
        visibility: vis,
        name: spec_predicate_name(label),
        body: GenBodyView::Predicate {
            arms: members.map(|t: int, m: usize| spec_variant_arm(variants[m as int])),
        },
    }
}

/// One predicate per bucket of the index, in index order.
pub open spec fn spec_group_fns(
    vis: Seq<char>,
    groups: Seq<BucketView>,
    variants: Seq<VariantDecl>,
) -> Seq<GenFnView> {
    groups.map(|j: int, b: BucketView| spec_group_fn(vis, b.label, b.members, variants))
}

/// One self-naming predicate per variant, whatever its labels: the
/// variant's own identifier serves as the label of a singleton bucket.
pub open spec fn spec_self_fns(vis: Seq<char>, variants: Seq<VariantDecl>) -> Seq<GenFnView> {
    variants.map(|k: int, v: VariantDecl| spec_group_fn(vis, v.ident@, seq![k as usize], variants))
}

/// The `variant_name` accessor: one arm per variant returning the
/// variant's declared identifier, verbatim, as a string literal.
pub open spec fn spec_name_fn(vis: Seq<char>, variants: Seq<VariantDecl>) -> GenFnView {
    GenFnView {
        visibility: vis,
        name: "variant_name"@,
        body: GenBodyView::NameAccessor {
            name_arms: variants.map(
                |k: int, v: VariantDecl|
                    NameArmView { pattern: spec_variant_arm(v), literal: v.ident@ },
            ),
        },
    }
}

/// Everything one generation pass emits, in emission order: the group
/// predicates, the self-naming predicates, then the name accessor.
pub open spec fn spec_generate(
    vis: Seq<char>,
    type_ident: Seq<char>,
    generics: Seq<char>,
    variants: Seq<VariantDecl>,
    groups: Seq<BucketView>,
) -> GenImplView {
    GenImplView {
        type_ident,
        generics,
        fns: spec_group_fns(vis, groups, variants) + spec_self_fns(vis, variants) + seq![
            spec_name_fn(vis, variants),
        ],
    }
}

/// The state of one generation pass: the declaration's reusable parts and
/// the group index built from its variants.
pub struct EnumGroupContext {
    pub visible: String,
    pub name: String,
    pub generics: String,
    pub variants: Vec<VariantDecl>,
    pub groups: Vec<GroupBucket>,
}

impl EnumGroupContext {
    /// What a successful `new` establishes: the held index is the one
    /// built from the held variants, and its buckets only mention
    /// variants that exist.
    pub open spec fn wf(&self) -> bool {
        &&& spec_extract_groups(self.variants@) == Ok::<Seq<BucketView>, GroupError>(
            buckets_view(self.groups),
        )
        &&& members_bounded(buckets_view(self.groups), self.variants@.len() as int)
    }

    /// Validate the declaration and build the group index. Anything but
    /// an enum is rejected; otherwise the result follows the variants'
    /// resolved labels exactly.
    pub fn new(decl: TypeDecl) -> (r: Result<EnumGroupContext, GroupError>)
        ensures
            match decl.data {
                TypeData::Enum { variants } => match spec_extract_groups(variants@) {
                    Ok(gs) => r matches Ok(ctx) && ctx.visible@ == decl.visibility@ && ctx.name@
                        == decl.ident@ && ctx.generics@ == decl.generics@ && ctx.variants@
                        == variants@ && buckets_view(ctx.groups) == gs && ctx.wf(),
                    Err(e) => r == Err::<EnumGroupContext, GroupError>(e),
                },
                _ => r == Err::<EnumGroupContext, GroupError>(
                    GroupError { kind: ErrorKind::NotAnEnum, span: decl.span },
                ),
            },
    {
        let TypeDecl { visibility, ident, generics, data, span } = decl;
        let variants = match data {
            TypeData::Enum { variants } => variants,
            _ => {
                return Err(GroupError { kind: ErrorKind::NotAnEnum, span });
            },
        };
        let groups = match extract_groups(&variants) {
            Err(e) => {
                return Err(e);
            },
            Ok(g) => g,
        };
        proof {
            lemma_extract_groups_bounded(variants@);
        }
        Ok(EnumGroupContext { visible: visibility, name: ident, generics, variants, groups })
    }

    /// The predicate for one label and the bucket of variants carrying it.
    fn gen_group_fn_expr(&self, label: &String, members: &Vec<usize>) -> (f: GenFn)
        requires
            forall|t: int|
                0 <= t < members@.len() ==> (#[trigger] members@[t]) < self.variants@.len(),
        ensures
            f@ == spec_group_fn(self.visible@, label@, members@, self.variants@),
    {
        let name = gen_group_label_ident(label);
        let mut arms: Vec<Pattern> = Vec::new();
        let mut t: usize = 0;
        while t < members.len()
            invariant
                t <= members@.len(),
                arms@.len() == t,
                forall|u: int|
                    0 <= u < members@.len() ==> (#[trigger] members@[u]) < self.variants@.len(),
                forall|u: int|
                    0 <= u < t ==> (#[trigger] arms@[u])@ == spec_variant_arm(
                        self.variants@[members@[u] as int],
                    ),
            decreases members@.len() - t,
        {
            let m = members[t];
            arms.push(gen_variant_arm(&self.variants[m]));
            t += 1;
        }
        let f = GenFn { visibility: self.visible.clone(), name, body: GenBody::Predicate { arms } };
        proof {
            assert(f@.body->Predicate_arms =~= members@.map(
                |u: int, m: usize| spec_variant_arm(self.variants@[m as int]),
            ));
            assert(f@ =~~= spec_group_fn(self.visible@, label@, members@, self.variants@));
        }
        f
    }

    /// One predicate per group label of the index.
    fn gen_group_fn_exprs(&self) -> (v: Vec<GenFn>)
        requires
            members_bounded(buckets_view(self.groups), self.variants@.len() as int),
        ensures
            v@.map(|i: int, f: GenFn| f@) == spec_group_fns(
                self.visible@,
                buckets_view(self.groups),
                self.variants@,
            ),
    {
        let mut v: Vec<GenFn> = Vec::new();
        let mut j: usize = 0;
        while j < self.groups.len()
            invariant
                j <= self.groups@.len(),
                v@.len() == j,
                members_bounded(buckets_view(self.groups), self.variants@.len() as int),
                forall|u: int|
                    0 <= u < j ==> (#[trigger] v@[u])@ == spec_group_fn(
                        self.visible@,
                        buckets_view(self.groups)[u].label,
                        buckets_view(self.groups)[u].members,
                        self.variants@,
                    ),
            decreases self.groups@.len() - j,
        {
            proof {
                assert(buckets_view(self.groups)[j as int] == self.groups@[j as int]@);
                assert forall|t: int|
                    0 <= t < self.groups@[j as int].members@.len() implies (#[trigger] self.groups@[
                    j as int].members@[t]) < self.variants@.len() by {
                    assert(buckets_view(self.groups)[j as int].members[t] == self.groups@[
                        j as int].members@[t]);
                }
            }
            let f = self.gen_group_fn_expr(&self.groups[j].label, &self.groups[j].members);
            v.push(f);
            j += 1;
        }
        proof {
            assert(v@.map(|i: int, f: GenFn| f@) =~= spec_group_fns(
                self.visible@,
                buckets_view(self.groups),
                self.variants@,
            ));
        }
        v
    }

    /// One self-naming predicate per variant, labels or no labels.
    fn gen_variant_group_fn_exprs(&self) -> (v: Vec<GenFn>)
        ensures
            v@.map(|i: int, f: GenFn| f@) == spec_self_fns(self.visible@, self.variants@),
    {
        let mut v: Vec<GenFn> = Vec::new();
        let mut k: usize = 0;
        while k < self.variants.len()
            invariant
                k <= self.variants@.len(),
                v@.len() == k,
                forall|u: int|
                    0 <= u < k ==> (#[trigger] v@[u])@ == spec_group_fn(
                        self.visible@,
                        self.variants@[u].ident@,
                        seq![u as usize],
                        self.variants@,
                    ),
            decreases self.variants@.len() - k,
        {
            let mut members: Vec<usize> = Vec::new();
            members.push(k);
            proof {
                assert(members@ =~= seq![k]);
            }
            let f = self.gen_group_fn_expr(&self.variants[k].ident, &members);
            v.push(f);
            k += 1;
        }
        proof {
            assert(v@.map(|i: int, f: GenFn| f@) =~= spec_self_fns(self.visible@, self.variants@));
        }
        v
    }

    /// The `variant_name` accessor over all variants.
    fn gen_variant_name_fn_expr(&self) -> (f: GenFn)
        ensures
            f@ == spec_name_fn(self.visible@, self.variants@),
    {
        let mut name_arms: Vec<NameArm> = Vec::new();
        let mut k: usize = 0;
        while k < self.variants.len()
            invariant
                k <= self.variants@.len(),
                name_arms@.len() == k,
                forall|u: int|
                    0 <= u < k ==> (#[trigger] name_arms@[u])@ == (NameArmView {
                        pattern: spec_variant_arm(self.variants@[u]),
                        literal: self.variants@[u].ident@,
                    }),
            decreases self.variants@.len() - k,
        {
            let pattern = gen_variant_arm(&self.variants[k]);
            let literal = self.variants[k].ident.clone();
            name_arms.push(NameArm { pattern, literal });
            k += 1;
        }
        let f = GenFn {
            visibility: self.visible.clone(),
            name: "variant_name".to_owned(),
            body: GenBody::NameAccessor { name_arms },
        };
        proof {
            assert(f@.body->NameAccessor_name_arms =~= self.variants@.map(
                |k: int, v: VariantDecl|
                    NameArmView { pattern: spec_variant_arm(v), literal: v.ident@ },
            ));
            assert(f@ =~~= spec_name_fn(self.visible@, self.variants@));
        }
        f
    }

    /// Emit the whole impl block. Generation cannot fail once the index
    /// is built; the `Result` mirrors the call site's error handling.
    pub fn generate(&self) -> (r: Result<GenImpl, GroupError>)
        requires
            self.wf(),
        ensures
            r matches Ok(b) && b@ == spec_generate(
                self.visible@,
                self.name@,
                self.generics@,
                self.variants@,
                buckets_view(self.groups),
            ),
    {
        let mut fns = self.gen_group_fn_exprs();
        let mut self_fns = self.gen_variant_group_fn_exprs();
        fns.append(&mut self_fns);
        let name_fn = self.gen_variant_name_fn_expr();
        fns.push(name_fn);
        let b = GenImpl {
            type_ident: self.name.clone(),
            generics: self.generics.clone(),
            fns,
        };
        proof {
            assert(b@.fns =~= spec_group_fns(
                self.visible@,
                buckets_view(self.groups),
                self.variants@,
            ) + spec_self_fns(self.visible@, self.variants@) + seq![
                spec_name_fn(self.visible@, self.variants@),
            ]);
            assert(b@ =~~= spec_generate(
                self.visible@,
                self.name@,
                self.generics@,
                self.variants@,
                buckets_view(self.groups),
            ));
        }
        Ok(b)
    }
}

/// The name of the predicate for one label: `is_` plus the lowercased
/// label.
fn gen_group_label_ident(label: &String) -> (r: String)
    ensures
        r@ == spec_predicate_name(label@),
{
    let low = lowercase(label.as_str());
    let mut out: String = "is_".to_owned();
    out.append(low.as_str());
    out
}

/// The match pattern for one variant, binding fields in wildcard fashion
/// regardless of arity or order; the shape picks the pattern form.
fn gen_variant_arm(variant: &VariantDecl) -> (p: Pattern)
    ensures
        p@ == spec_variant_arm(*variant),
{
    Pattern { ident: variant.ident.clone(), shape: variant.shape }
}

} // verus!
