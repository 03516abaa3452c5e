//! The generated declarations, as data.
//!
//! The generator does not print source text; it hands the host a
//! structured impl block: a list of functions, each either a membership
//! predicate (a match whose listed arms return `true` and whose wildcard
//! returns `false`) or the name accessor (a match returning one string
//! literal per variant). The evaluation functions here give those
//! declarations their runtime meaning: what the emitted match would
//! return for a given active variant.

use vstd::prelude::*;

use crate::FieldShape;

verus! {

/// A match pattern for one variant, binding any fields in wildcard
/// fashion: `Ident`, `Ident(..)` or `Ident{..}` depending on the shape.
pub struct Pattern {
    pub ident: String,
    pub shape: FieldShape,
}

#[verifier::ext_equal]
pub struct PatternView {
    pub ident: Seq<char>,
    pub shape: FieldShape,
}

impl View for Pattern {
    type V = PatternView;

    open spec fn view(&self) -> PatternView {
        PatternView { ident: self.ident@, shape: self.shape }
    }
}

/// One arm of the name accessor: a pattern and the literal it returns.
pub struct NameArm {
    pub pattern: Pattern,
    pub literal: String,
}

#[verifier::ext_equal]
pub struct NameArmView {
    pub pattern: PatternView,
    pub literal: Seq<char>,
}

impl View for NameArm {
    type V = NameArmView;

    open spec fn view(&self) -> NameArmView {
        NameArmView { pattern: self.pattern@, literal: self.literal@ }
    }
}

/// The body of one generated function.
pub enum GenBody {
    /// `match self { A | B | .. => true, _ => false }`
    Predicate { arms: Vec<Pattern> },
    /// `match self { A => "A", B => "B", .. }`, one arm per variant.
    NameAccessor { name_arms: Vec<NameArm> },
}

#[verifier::ext_equal]
pub enum GenBodyView {
    Predicate { arms: Seq<PatternView> },
    NameAccessor { name_arms: Seq<NameArmView> },
}

impl View for GenBody {
    type V = GenBodyView;

    open spec fn view(&self) -> GenBodyView {
        match *self {
            GenBody::Predicate { arms } => GenBodyView::Predicate {
                arms: arms@.map(|i: int, p: Pattern| p@),
            },
            GenBody::NameAccessor { name_arms } => GenBodyView::NameAccessor {
                name_arms: name_arms@.map(|i: int, a: NameArm| a@),
            },
        }
    }
}

/// One generated function: the declared visibility carried through, the
/// function's name, and its match body.
pub struct GenFn {
    pub visibility: String,
    pub name: String,
    pub body: GenBody,
}

#[verifier::ext_equal]
pub struct GenFnView {
    pub visibility: Seq<char>,
    pub name: Seq<char>,
    pub body: GenBodyView,
}

impl View for GenFn {
    type V = GenFnView;

    open spec fn view(&self) -> GenFnView {
        GenFnView { visibility: self.visibility@, name: self.name@, body: self.body@ }
    }
}

/// The whole emitted impl block, scoped to the type's name and generics.
pub struct GenImpl {
    pub type_ident: String,
    pub generics: String,
    pub fns: Vec<GenFn>,
}

#[verifier::ext_equal]
pub struct GenImplView {
    pub type_ident: Seq<char>,
    pub generics: Seq<char>,
    pub fns: Seq<GenFnView>,
}

impl View for GenImpl {
    type V = GenImplView;

    open spec fn view(&self) -> GenImplView {
        GenImplView {
            type_ident: self.type_ident@,
            generics: self.generics@,
            fns: self.fns@.map(|i: int, f: GenFn| f@),
        }
    }
}

/// Whether the OR-combined arms of a generated predicate match a value
/// whose active variant has the given identifier. A wildcard-binding
/// pattern matches exactly when its variant identifier is the active one.
pub open spec fn spec_arms_match(arms: Seq<PatternView>, active: Seq<char>) -> bool {
    exists|t: int| 0 <= t < arms.len() && (#[trigger] arms[t]).ident == active
}

/// What the name accessor's match returns: the literal of the first arm
/// whose pattern matches the active variant, if any arm does.
pub open spec fn spec_name_lookup(arms: Seq<NameArmView>, active: Seq<char>) -> Option<Seq<char>>
    decreases arms.len(),
{
    if arms.len() == 0 {
        None
    } else if arms[0].pattern.ident == active {
        Some(arms[0].literal)
    } else {
        spec_name_lookup(arms.subrange(1, arms.len() as int), active)
    }
}

/// The first generated function with the given name, or the length when
/// none has it.
pub open spec fn spec_fn_index(fns: Seq<GenFnView>, name: Seq<char>) -> int
    decreases fns.len(),
{
    if fns.len() == 0 {
        0
    } else if fns[0].name == name {
        0
    } else {
        1 + spec_fn_index(fns.subrange(1, fns.len() as int), name)
    }
}

/// `spec_fn_index` finds the first function with the name, if any.
pub proof fn lemma_fn_index(fns: Seq<GenFnView>, name: Seq<char>)
    ensures
        0 <= spec_fn_index(fns, name) <= fns.len(),
        spec_fn_index(fns, name) < fns.len() ==> fns[spec_fn_index(fns, name)].name == name,
        forall|k: int| 0 <= k < spec_fn_index(fns, name) ==> (#[trigger] fns[k]).name != name,
    decreases fns.len(),
{
    if fns.len() > 0 && fns[0].name != name {
        let tail = fns.subrange(1, fns.len() as int);
        lemma_fn_index(tail, name);
        assert forall|k: int|
            0 <= k < spec_fn_index(fns, name) implies (#[trigger] fns[k]).name != name by {
            if k > 0 {
                assert(fns[k] == tail[k - 1]);
            }
        }
    }
}

/// Evaluate a predicate's arm list against an active variant identifier.
fn arms_match(arms: &Vec<Pattern>, active: &String) -> (r: bool)
    ensures
        r == spec_arms_match(arms@.map(|i: int, p: Pattern| p@), active@),
{
    let ghost av = arms@.map(|i: int, p: Pattern| p@);
    let mut t: usize = 0;
    while t < arms.len()
        invariant
            t <= arms@.len(),
            av == arms@.map(|i: int, p: Pattern| p@),
            forall|u: int| 0 <= u < t ==> (#[trigger] arms@[u]).ident@ != active@,
        decreases arms@.len() - t,
    {
        if arms[t].ident.eq(active) {
            proof {
                assert(av[t as int] == arms@[t as int]@);
            }
            return true;
        }
        t += 1;
    }
    proof {
        assert forall|u: int| 0 <= u < av.len() implies (#[trigger] av[u]).ident != active@ by {
            assert(av[u] == arms@[u]@);
        }
    }
    false
}

/// Evaluate the name accessor's arm list: the literal of the first arm
/// whose pattern matches.
fn name_lookup(arms: &Vec<NameArm>, active: &String) -> (r: Option<String>)
    ensures
        (match (r, spec_name_lookup(arms@.map(|i: int, a: NameArm| a@), active@)) {
            (Some(s), Some(l)) => s@ == l,
            (None, None) => true,
            _ => false,
        }),
{
    let ghost av = arms@.map(|i: int, a: NameArm| a@);
    proof {
        assert(av.subrange(0, av.len() as int) =~= av);
    }
    let mut t: usize = 0;
    while t < arms.len()
        invariant
            t <= arms@.len(),
            av == arms@.map(|i: int, a: NameArm| a@),
            spec_name_lookup(av, active@) == spec_name_lookup(
                av.subrange(t as int, av.len() as int),
                active@,
            ),
        decreases arms@.len() - t,
    {
        proof {
            assert(av[t as int] == arms@[t as int]@);
            assert(av.subrange(t as int, av.len() as int)[0] == av[t as int]);
        }
        if arms[t].pattern.ident.eq(active) {
            return Some(arms[t].literal.clone());
        }
        proof {
            assert(av.subrange(t as int, av.len() as int).subrange(
                1,
                av.len() as int - t,
            ) =~= av.subrange(t as int + 1, av.len() as int));
        }
        t += 1;
    }
    proof {
        assert(av.subrange(av.len() as int, av.len() as int) =~= Seq::<NameArmView>::empty());
    }
    None
}

impl GenImpl {
    /// What the generated function called `fn_name` returns on a value of
    /// the enum whose active variant is named `active`: `Some` of the
    /// emitted match's result when such a function exists and is a
    /// predicate, `None` otherwise.
    pub fn eval_predicate(&self, fn_name: &String, active: &String) -> (r: Option<bool>)
        ensures
            ({
                let j = spec_fn_index(self@.fns, fn_name@);
                if j < self@.fns.len() {
                    match self@.fns[j].body {
                        GenBodyView::Predicate { arms } => r == Some(
                            spec_arms_match(arms, active@),
                        ),
                        GenBodyView::NameAccessor { .. } => r is None,
                    }
                } else {
                    r is None
                }
            }),
    {
        let ghost fv = self@.fns;
        proof {
            lemma_fn_index(fv, fn_name@);
        }
        let mut j: usize = 0;
        while j < self.fns.len()
            invariant
                j <= self.fns@.len(),
                fv == self@.fns,
                fv.len() == self.fns@.len(),
                forall|k: int| 0 <= k < j ==> (#[trigger] fv[k]).name != fn_name@,
                0 <= spec_fn_index(fv, fn_name@) <= fv.len(),
                spec_fn_index(fv, fn_name@) < fv.len() ==> fv[spec_fn_index(fv, fn_name@)].name
                    == fn_name@,
                forall|k: int|
                    0 <= k < spec_fn_index(fv, fn_name@) ==> (#[trigger] fv[k]).name != fn_name@,
            decreases self.fns@.len() - j,
        {
            proof {
                assert(fv[j as int] == self.fns@[j as int]@);
            }
            if self.fns[j].name.eq(fn_name) {
                match &self.fns[j].body {
                    GenBody::Predicate { arms } => {
                        let m = arms_match(arms, active);
                        return Some(m);
                    },
                    GenBody::NameAccessor { .. } => {
                        return None;
                    },
                }
            }
            j += 1;
        }
        None
    }

    /// What the generated `variant_name` function returns on a value whose
    /// active variant is named `active`: the matching arm's literal, or
    /// `None` when no generated function matches the request.
    pub fn eval_variant_name(&self, active: &String) -> (r: Option<String>)
        ensures
            ({
                let j = spec_fn_index(self@.fns, "variant_name"@);
                if j < self@.fns.len() {
                    match self@.fns[j].body {
                        GenBodyView::NameAccessor { name_arms } => match (
                            r,
                            spec_name_lookup(name_arms, active@),
                        ) {
                            (Some(s), Some(l)) => s@ == l,
                            (None, None) => true,
                            _ => false,
                        },
                        GenBodyView::Predicate { .. } => r is None,
                    }
                } else {
                    r is None
                }
            }),
    {
        let accessor_name: String = "variant_name".to_owned();
        let ghost fv = self@.fns;
        proof {
            lemma_fn_index(fv, "variant_name"@);
        }
        let mut j: usize = 0;
        while j < self.fns.len()
            invariant
                j <= self.fns@.len(),
                fv == self@.fns,
                fv.len() == self.fns@.len(),
                accessor_name@ == "variant_name"@,
                forall|k: int| 0 <= k < j ==> (#[trigger] fv[k]).name != "variant_name"@,
                0 <= spec_fn_index(fv, "variant_name"@) <= fv.len(),
                spec_fn_index(fv, "variant_name"@) < fv.len() ==> fv[spec_fn_index(
                    fv,
                    "variant_name"@,
                )].name == "variant_name"@,
                forall|k: int|
                    0 <= k < spec_fn_index(fv, "variant_name"@) ==> (#[trigger] fv[k]).name
                        != "variant_name"@,
            decreases self.fns@.len() - j,
        {
            proof {
                assert(fv[j as int] == self.fns@[j as int]@);
            }
            if self.fns[j].name.eq(&accessor_name) {
                match &self.fns[j].body {
                    GenBody::NameAccessor { name_arms } => {
                        return name_lookup(name_arms, active);
                    },
                    GenBody::Predicate { .. } => {
                        return None;
                    },
                }
            }
            j += 1;
        }
        None
    }
}

} // verus!
