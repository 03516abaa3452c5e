//! The attribute grammar parser.
//!
//! Walks the metadata attached to one variant, recognizes the single
//! `groups(...)` entry, and resolves its arguments into validated label
//! identifiers. A bare path is a leaf label; a nested list `outer(...)`
//! prefixes every label resolved inside it with `outer_`, recursively, so
//! arbitrary nesting flattens into compound labels.

use vstd::prelude::*;

use crate::ast::{ErrorKind, GroupError, Meta, VariantDecl};
use crate::text::{char_is_alphanumeric, unicode_alphanumeric, ascii_uppercase};

verus! {

/// A character a label may contain: alphanumeric or underscore, and not an
/// uppercase ASCII letter.
pub open spec fn valid_label_char(c: char) -> bool {
    (unicode_alphanumeric(c) || c == '_') && !ascii_uppercase(c)
}

pub open spec fn all_valid_label_chars(s: Seq<char>) -> bool {
    forall|i: int| 0 <= i < s.len() ==> valid_label_char(#[trigger] s[i])
}

/// What resolving one path into a label yields: the label itself, or the
/// first violated rule. A path qualifies only if it is a single segment;
/// the segment must use the label character set and must not begin or end
/// with an underscore.
pub open spec fn spec_label_of_path(segments: Seq<String>, span: u64) -> Result<Seq<char>, GroupError> {
    if segments.len() != 1 {
        Err(GroupError { kind: ErrorKind::UnknownGroupItem, span })
    } else {
        let s = segments[0]@;
        if !all_valid_label_chars(s) {
            Err(GroupError { kind: ErrorKind::InvalidLabelCharacters, span })
        } else if s.len() > 0 && s[0] == '_' {
            Err(GroupError { kind: ErrorKind::LabelStartsWithUnderscore, span })
        } else if s.len() > 0 && s[s.len() - 1] == '_' {
            Err(GroupError { kind: ErrorKind::LabelEndsWithUnderscore, span })
        } else {
            Ok(s)
        }
    }
}

/// A resolved label list with the string views taken, so exec results can
/// be compared against the spec-level resolution.
pub open spec fn label_result_view(r: Result<String, GroupError>) -> Result<Seq<char>, GroupError> {
    match r {
        Ok(s) => Ok(s@),
        Err(e) => Err(e),
    }
}

/// Resolve one path into a validated label identifier.
pub fn extract_label_ident(segments: &Vec<String>, span: u64) -> (r: Result<String, GroupError>)
    ensures
        label_result_view(r) == spec_label_of_path(segments@, span),
{
    if segments.len() != 1 {
        return Err(GroupError { kind: ErrorKind::UnknownGroupItem, span });
    }
    let s: &str = segments[0].as_str();
    let n = s.unicode_len();
    let mut i: usize = 0;
    while i < n
        invariant
            i <= n,
            n == s@.len(),
            segments@.len() == 1,
            s@ == segments@[0]@,
            forall|k: int| 0 <= k < i ==> valid_label_char(#[trigger] s@[k]),
        decreases n - i,
    {
        let c = s.get_char(i);
        let valid = (char_is_alphanumeric(c) || c == '_') && !(65 <= (c as u32) && (c as u32) <= 90);
        if !valid {
            return Err(GroupError { kind: ErrorKind::InvalidLabelCharacters, span });
        }
        i += 1;
    }
    if n > 0 && s.get_char(0) == '_' {
        return Err(GroupError { kind: ErrorKind::LabelStartsWithUnderscore, span });
    }
    if n > 0 && s.get_char(n - 1) == '_' {
        return Err(GroupError { kind: ErrorKind::LabelEndsWithUnderscore, span });
    }
    Ok(segments[0].clone())
}

/// Every label in the list, prefixed for one more nesting level.
pub open spec fn with_prefix(prefix: Seq<char>, labels: Seq<Seq<char>>) -> Seq<Seq<char>> {
    labels.map(|i: int, l: Seq<char>| prefix + "_"@ + l)
}

/// What one `groups` argument resolves to: one leaf label for a bare path,
/// the prefixed flattening of the inner list for a nested list, and an
/// error for anything else.
pub open spec fn spec_labels_of_arg(m: Meta) -> Result<Seq<Seq<char>>, GroupError>
    decreases m, 0int,
{
    match m {
        Meta::Path { segments, span } => match spec_label_of_path(segments@, span) {
            Err(e) => Err(e),
            Ok(l) => Ok(seq![l]),
        },
        Meta::List { segments, path_span, args, span } => match spec_label_of_path(
            segments@,
            path_span,
        ) {
            Err(e) => Err(e),
            Ok(prefix) => match spec_labels_of_args(args@) {
                Err(e) => Err(e),
                Ok(subs) => Ok(with_prefix(prefix, subs)),
            },
        },
        Meta::Other { span } => Err(GroupError { kind: ErrorKind::UnknownGroupItem, span }),
    }
}

/// What an argument list resolves to: the concatenation of what each
/// argument resolves to, in order, stopping at the first error.
pub open spec fn spec_labels_of_args(args: Seq<Meta>) -> Result<Seq<Seq<char>>, GroupError>
    decreases args, 1int,
{
    if args.len() == 0 {
        Ok(Seq::empty())
    } else {
        match spec_labels_of_arg(args[0]) {
            Err(e) => Err(e),
            Ok(head) => match spec_labels_of_args(args.subrange(1, args.len() as int)) {
                Err(e) => Err(e),
                Ok(tail) => Ok(head + tail),
            },
        }
    }
}

/// A resolved label list with the string views taken.
pub open spec fn labels_result_view(r: Result<Vec<String>, GroupError>) -> Result<
    Seq<Seq<char>>,
    GroupError,
> {
    match r {
        Ok(v) => Ok(v.deep_view()),
        Err(e) => Err(e),
    }
}

/// Resolve the argument list from position `start` on.
fn extract_args_from(nested: &Vec<Meta>, start: usize) -> (r: Result<Vec<String>, GroupError>)
    requires
        start <= nested@.len(),
    ensures
        labels_result_view(r) == spec_labels_of_args(
            nested@.subrange(start as int, nested@.len() as int),
        ),
    decreases nested@, nested@.len() - start,
{
    if start >= nested.len() {
        let empty: Vec<String> = Vec::new();
        proof {
            assert(nested@.subrange(start as int, nested@.len() as int) =~= Seq::<Meta>::empty());
            assert(empty.deep_view() =~= Seq::<Seq<char>>::empty());
        }
        return Ok(empty);
    }
    let ghost rest = nested@.subrange(start as int, nested@.len() as int);
    proof {
        assert(rest[0] == nested@[start as int]);
        assert(rest.subrange(1, rest.len() as int) =~= nested@.subrange(
            start as int + 1,
            nested@.len() as int,
        ));
    }
    let head: Vec<String> = match &nested[start] {
        Meta::Path { segments, span } => {
            match extract_label_ident(segments, *span) {
                Err(e) => {
                    proof {
                        assert(spec_labels_of_arg(rest[0]) == Err::<Seq<Seq<char>>, GroupError>(e));
                        assert(spec_labels_of_args(rest) == Err::<Seq<Seq<char>>, GroupError>(e));
                    }
                    return Err(e);
                },
                Ok(l) => {
                    let mut h: Vec<String> = Vec::new();
                    h.push(l);
                    proof {
                        assert(h.deep_view() =~= seq![spec_label_of_path(segments@, *span)->Ok_0]);
                        assert(spec_labels_of_arg(rest[0]) == Ok::<Seq<Seq<char>>, GroupError>(
                            h.deep_view(),
                        ));
                    }
                    h
                },
            }
        },
        Meta::List { segments, path_span, args, span } => {
            let prefix = match extract_label_ident(segments, *path_span) {
                Err(e) => {
                    proof {
                        assert(spec_labels_of_arg(rest[0]) == Err::<Seq<Seq<char>>, GroupError>(e));
                        assert(spec_labels_of_args(rest) == Err::<Seq<Seq<char>>, GroupError>(e));
                    }
                    return Err(e);
                },
                Ok(p) => p,
            };
            let subs = match extract_args_from(args, 0) {
                Err(e) => {
                    proof {
                        assert(args@.subrange(0, args@.len() as int) =~= args@);
                        assert(spec_labels_of_arg(rest[0]) == Err::<Seq<Seq<char>>, GroupError>(e));
                        assert(spec_labels_of_args(rest) == Err::<Seq<Seq<char>>, GroupError>(e));
                    }
                    return Err(e);
                },
                Ok(s) => s,
            };
            proof {
                assert(args@.subrange(0, args@.len() as int) =~= args@);
            }
            let mut h: Vec<String> = Vec::new();
            let mut k: usize = 0;
            while k < subs.len()
                invariant
                    k <= subs.len(),
                    h@.len() == k,
                    forall|t: int|
                        0 <= t < k ==> (#[trigger] h@[t])@ == prefix@ + "_"@ + subs@[t]@,
                decreases subs.len() - k,
            {
                let j = crate::text::join_underscore(&prefix, &subs[k]);
                h.push(j);
                k += 1;
            }
            proof {
                assert(h.deep_view() =~= with_prefix(prefix@, subs.deep_view()));
                assert(spec_labels_of_arg(rest[0]) == Ok::<Seq<Seq<char>>, GroupError>(
                    h.deep_view(),
                ));
            }
            h
        },
        Meta::Other { span } => {
            let e = GroupError { kind: ErrorKind::UnknownGroupItem, span: *span };
            proof {
                assert(spec_labels_of_arg(rest[0]) == Err::<Seq<Seq<char>>, GroupError>(e));
                assert(spec_labels_of_args(rest) == Err::<Seq<Seq<char>>, GroupError>(e));
            }
            return Err(e);
        },
    };
    let ghost head_view = head.deep_view();
    proof {
        assert(spec_labels_of_arg(rest[0]) == Ok::<Seq<Seq<char>>, GroupError>(head_view));
    }
    let mut tail = match extract_args_from(nested, start + 1) {
        Err(e) => {
            proof {
                assert(spec_labels_of_args(rest) == Err::<Seq<Seq<char>>, GroupError>(e));
            }
            return Err(e);
        },
        Ok(t) => t,
    };
    let ghost tail_view = tail.deep_view();
    let mut out = head;
    out.append(&mut tail);
    proof {
        assert(out.deep_view() =~= head_view + tail_view);
        assert(spec_labels_of_args(rest) == Ok::<Seq<Seq<char>>, GroupError>(
            head_view + tail_view,
        ));
    }
    Ok(out)
}

/// Resolve a whole `groups` argument list into its flat label list.
pub fn extract_label_idents(nested: &Vec<Meta>) -> (r: Result<Vec<String>, GroupError>)
    ensures
        labels_result_view(r) == spec_labels_of_args(nested@),
{
    proof {
        assert(nested@.subrange(0, nested@.len() as int) =~= nested@);
    }
    extract_args_from(nested, 0)
}

/// A metadata entry the generator recognizes: a list whose path is the
/// single segment `groups`.
pub open spec fn is_groups_attr(m: Meta) -> bool {
    &&& m is List
    &&& m->List_segments@.len() == 1
    &&& m->List_segments@[0]@ == "groups"@
}

/// Walk the attribute list from position `i`, with `found` holding the
/// position of the recognized entry seen so far. A recognized entry with
/// an empty argument list is rejected at once; a second recognized entry
/// is a duplicate, reported at its own span.
pub open spec fn spec_scan_attrs(attrs: Seq<Meta>, i: int, found: Option<int>) -> Result<
    Option<int>,
    GroupError,
>
    decreases attrs.len() - i,
{
    if i < 0 || i >= attrs.len() {
        Ok(found)
    } else if is_groups_attr(attrs[i]) {
        if attrs[i]->List_args@.len() == 0 {
            Err(GroupError { kind: ErrorKind::EmptyGroupList, span: attrs[i]->List_span })
        } else if found is Some {
            Err(GroupError { kind: ErrorKind::DuplicateGroupAttribute, span: attrs[i]->List_span })
        } else {
            spec_scan_attrs(attrs, i + 1, Some(i))
        }
    } else {
        spec_scan_attrs(attrs, i + 1, found)
    }
}

/// Where the one `groups` attribute of a variant stands, if any.
pub open spec fn spec_groups_attr(attrs: Seq<Meta>) -> Result<Option<int>, GroupError> {
    spec_scan_attrs(attrs, 0, None)
}

proof fn lemma_scan_attrs_found(attrs: Seq<Meta>, i: int, found: Option<int>, j: int)
    requires
        0 <= i <= attrs.len(),
        found matches Some(f) ==> 0 <= f < attrs.len() && is_groups_attr(attrs[f])
            && attrs[f]->List_args@.len() > 0,
        spec_scan_attrs(attrs, i, found) == Ok::<Option<int>, GroupError>(Some(j)),
    ensures
        0 <= j < attrs.len(),
        is_groups_attr(attrs[j]),
        attrs[j]->List_args@.len() > 0,
    decreases attrs.len() - i,
{
    if i < attrs.len() {
        if is_groups_attr(attrs[i]) {
            lemma_scan_attrs_found(attrs, i + 1, Some(i), j);
        } else {
            lemma_scan_attrs_found(attrs, i + 1, found, j);
        }
    }
}

/// A found `groups` attribute really is one, and its argument list is
/// non-empty.
pub proof fn lemma_groups_attr_found(attrs: Seq<Meta>, j: int)
    requires
        spec_groups_attr(attrs) == Ok::<Option<int>, GroupError>(Some(j)),
    ensures
        0 <= j < attrs.len(),
        is_groups_attr(attrs[j]),
        attrs[j]->List_args@.len() > 0,
{
    lemma_scan_attrs_found(attrs, 0, None, j);
}

pub open spec fn opt_index_view(o: Option<usize>) -> Option<int> {
    match o {
        Some(i) => Some(i as int),
        None => None,
    }
}

/// Find the one `groups` attribute among a variant's metadata entries and
/// return its position; `None` when the variant is unlabeled.
pub fn extract_nested_meta(attrs: &Vec<Meta>) -> (r: Result<Option<usize>, GroupError>)
    ensures
        match r {
            Ok(o) => spec_groups_attr(attrs@) == Ok::<Option<int>, GroupError>(opt_index_view(o))
                && (o matches Some(f) ==> f < attrs@.len()),
            Err(e) => spec_groups_attr(attrs@) == Err::<Option<int>, GroupError>(e),
        },
{
    let groups_name: String = "groups".to_owned();
    let mut found: Option<usize> = None;
    let mut i: usize = 0;
    while i < attrs.len()
        invariant
            i <= attrs@.len(),
            groups_name@ == "groups"@,
            found matches Some(f) ==> f < i,
            spec_scan_attrs(attrs@, i as int, opt_index_view(found)) == spec_groups_attr(attrs@),
        decreases attrs@.len() - i,
    {
        match &attrs[i] {
            Meta::List { segments, path_span, args, span } => {
                if segments.len() == 1 && segments[0].eq(&groups_name) {
                    if args.len() == 0 {
                        let e = GroupError { kind: ErrorKind::EmptyGroupList, span: *span };
                        proof {
                            assert(spec_scan_attrs(attrs@, i as int, opt_index_view(found))
                                == Err::<Option<int>, GroupError>(e));
                        }
                        return Err(e);
                    }
                    if found.is_some() {
                        let e = GroupError { kind: ErrorKind::DuplicateGroupAttribute, span: *span };
                        proof {
                            assert(spec_scan_attrs(attrs@, i as int, opt_index_view(found))
                                == Err::<Option<int>, GroupError>(e));
                        }
                        return Err(e);
                    }
                    proof {
                        assert(spec_scan_attrs(attrs@, i as int, opt_index_view(found))
                            == spec_scan_attrs(attrs@, i as int + 1, Some(i as int)));
                    }
                    found = Some(i);
                } else {
                    proof {
                        assert(!is_groups_attr(attrs@[i as int]));
                    }
                }
            },
            _ => {},
        }
        i += 1;
    }
    Ok(found)
}

/// The labels a variant declares: empty when it carries no `groups`
/// attribute, otherwise the resolved flattening of the one it carries.
pub open spec fn spec_variant_labels(v: VariantDecl) -> Result<Seq<Seq<char>>, GroupError> {
    match spec_groups_attr(v.attrs@) {
        Err(e) => Err(e),
        Ok(None) => Ok(Seq::empty()),
        Ok(Some(i)) => spec_labels_of_args(v.attrs@[i]->List_args@),
    }
}

/// Resolve the labels of one variant.
pub fn extract_variant_labels(v: &VariantDecl) -> (r: Result<Vec<String>, GroupError>)
    ensures
        labels_result_view(r) == spec_variant_labels(*v),
{
    match extract_nested_meta(&v.attrs) {
        Err(e) => Err(e),
        Ok(None) => {
            let empty: Vec<String> = Vec::new();
            proof {
                assert(empty.deep_view() =~= Seq::<Seq<char>>::empty());
            }
            Ok(empty)
        },
        Ok(Some(ai)) => {
            proof {
                lemma_groups_attr_found(v.attrs@, ai as int);
            }
            match &v.attrs[ai] {
                Meta::List { args, .. } => extract_label_idents(args),
                _ => unreached(),
            }
        },
    }
}

} // verus!
