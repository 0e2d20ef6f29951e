//! The diagnostic model: severity-tagged diagnostics collected into bind
//! errors.
//!
//! A bind error holds zero or more diagnostics, each with an optional source
//! span, message and help text.  Errors are created fresh per leaf failure
//! and only combined by the merge combinator; a bind error with no
//! error-severity diagnostic is not a failure.

use crate::doc::{KdlValueType, KeyView, NodeKey, Span};
use crate::strings::{push_decimal, push_quoted, spec_decimal, spec_quoted};
use vstd::prelude::*;

verus! {

/// How serious one diagnostic is.  Ordered: advice < warning < error.
#[derive(Debug, Clone, Copy, PartialEq, Eq, Structural)]
pub enum Severity {
    Advice,
    Warning,
    Error,
}

impl Severity {
    /// Position of this severity in the order.
    pub open spec fn spec_rank(self) -> int {
        match self {
            Severity::Advice => 0,
            Severity::Warning => 1,
            Severity::Error => 2,
        }
    }
}

/// One reportable problem.
#[derive(Debug, Clone)]
pub struct KdlBindDiagnostic {
    /// The source text the diagnostic points into.
    pub source: String,
    pub span: Option<Span>,
    pub message: Option<String>,
    pub label: Option<String>,
    pub help: Option<String>,
    pub severity: Severity,
}

/// The mathematical value of a diagnostic.
#[verifier::ext_equal]
pub struct DiagnosticView {
    pub source: Seq<char>,
    pub span: Option<Span>,
    pub message: Option<Seq<char>>,
    pub label: Option<Seq<char>>,
    pub help: Option<Seq<char>>,
    pub severity: Severity,
}

impl View for KdlBindDiagnostic {
    type V = DiagnosticView;

    open spec fn view(&self) -> DiagnosticView {
        DiagnosticView {
            source: self.source@,
            span: self.span,
            message: self.message.deep_view(),
            label: self.label.deep_view(),
            help: self.help.deep_view(),
            severity: self.severity,
        }
    }
}

impl DeepView for KdlBindDiagnostic {
    type V = DiagnosticView;

    open spec fn deep_view(&self) -> DiagnosticView {
        self.view()
    }
}

impl KdlBindDiagnostic {
    /// An empty diagnostic of the given severity against the given source.
    pub fn new(source: String, severity: Severity) -> (d: KdlBindDiagnostic)
        ensures
            d@ == (DiagnosticView {
                source: source@,
                span: None,
                message: None,
                label: None,
                help: None,
                severity,
            }),
    {
        KdlBindDiagnostic { source, span: None, message: None, label: None, help: None, severity }
    }
}

/// The result of a failed (or partially failed) bind: every diagnostic the
/// document produced, with the source text they point into.
#[derive(Debug, Clone)]
pub struct KdlBindError {
    /// String to be shown when this error is printed as a whole.
    pub display: Option<String>,
    /// Source text that the diagnostics were taken from.
    pub source: String,
    pub diagnostics: Vec<KdlBindDiagnostic>,
}

/// The mathematical value of a bind error.
#[verifier::ext_equal]
pub struct ErrorView {
    pub display: Option<Seq<char>>,
    pub source: Seq<char>,
    pub diagnostics: Seq<DiagnosticView>,
}

impl ErrorView {
    /// A failure is a diagnostic of severity at least `Error`.
    pub open spec fn spec_is_failure(self) -> bool {
        exists|i: int|
            0 <= i < self.diagnostics.len() && self.diagnostics[i].severity.spec_rank()
                >= Severity::Error.spec_rank()
    }
}

impl View for KdlBindError {
    type V = ErrorView;

    open spec fn view(&self) -> ErrorView {
        ErrorView {
            display: self.display.deep_view(),
            source: self.source@,
            diagnostics: self.diagnostics.deep_view(),
        }
    }
}

impl DeepView for KdlBindError {
    type V = ErrorView;

    open spec fn deep_view(&self) -> ErrorView {
        self.view()
    }
}

impl KdlBindError {
    /// An empty error against the given source text.
    pub fn new(source: String) -> (e: KdlBindError)
        ensures
            e@.display is None,
            e@.source == source@,
            e@.diagnostics == Seq::<DiagnosticView>::empty(),
    {
        let e = KdlBindError { display: None, source, diagnostics: Vec::new() };
        proof {
            assert(e@.diagnostics =~= Seq::<DiagnosticView>::empty());
        }
        e
    }

    /// Whether any diagnostic reaches severity `Error`.
    pub fn is_failure(&self) -> (r: bool)
        ensures
            r == self@.spec_is_failure(),
    {
        let mut i: usize = 0;
        while i < self.diagnostics.len()
            invariant
                i <= self.diagnostics@.len(),
                forall|j: int|
                    0 <= j < i ==> self@.diagnostics[j].severity.spec_rank() < Severity::Error.spec_rank(),
            decreases self.diagnostics@.len() - i,
        {
            match self.diagnostics[i].severity {
                Severity::Error => {
                    proof {
                        assert(self@.diagnostics[i as int] == self.diagnostics@[i as int].deep_view());
                        assert(self@.diagnostics[i as int].severity == Severity::Error);
                    }
                    return true;
                },
                _ => {},
            }
            i += 1;
        }
        false
    }

    /// This error's diagnostics followed by the other's, under this error's
    /// display string and source.
    pub fn merge_two(self, other: KdlBindError) -> (r: KdlBindError)
        ensures
            r@.display == self@.display,
            r@.source == self@.source,
            r@.diagnostics == self@.diagnostics + other@.diagnostics,
    {
        let mut diagnostics = self.diagnostics;
        let mut other_diagnostics = other.diagnostics;
        diagnostics.append(&mut other_diagnostics);
        let r = KdlBindError { display: self.display, source: self.source, diagnostics };
        proof {
            assert(r@.diagnostics =~= self@.diagnostics + other@.diagnostics);
        }
        r
    }

    /// One error per element, combined in order: the first element's display
    /// string and source, and every element's diagnostics concatenated.
    pub fn merge(to_merge: Vec<KdlBindError>) -> (r: KdlBindError)
        ensures
            to_merge@.len() == 0 ==> r@.display is None && r@.source == Seq::<char>::empty()
                && r@.diagnostics == Seq::<DiagnosticView>::empty(),
            to_merge@.len() > 0 ==> r@.display == to_merge@[0]@.display && r@.source
                == to_merge@[0]@.source && r@.diagnostics == spec_concat_diags(to_merge.deep_view()),
    {
        let mut rest = to_merge;
        if rest.len() == 0 {
            proof {
                assert(Seq::<DiagnosticView>::empty() =~= Seq::<DiagnosticView>::empty());
            }
            return KdlBindError::new(String::new());
        }
        let ghost all = rest.deep_view();
        let first = rest.remove(0);
        let mut acc = first;
        let ghost mut n: int = 1;
        proof {
            assert(acc.deep_view() == all[0]);
            assert(all.take(1).drop_last() =~= Seq::<ErrorView>::empty());
            assert(all.take(1).last() == all[0]);
            assert(spec_concat_diags(Seq::<ErrorView>::empty()) == Seq::<DiagnosticView>::empty());
            assert(spec_concat_diags(all.take(1)) =~= all[0].diagnostics);
        }
        while rest.len() > 0
            invariant
                1 <= n <= all.len(),
                rest.deep_view() =~= all.skip(n),
                acc@.display == all[0].display,
                acc@.source == all[0].source,
                acc@.diagnostics == spec_concat_diags(all.take(n)),
            decreases rest@.len(),
        {
            let ghost old_rest = rest.deep_view();
            let ghost old_vec = rest@;
            let next = rest.remove(0);
            proof {
                assert(old_rest.len() == old_vec.len());
                assert(all.skip(n).len() == all.len() - n);
                assert(n < all.len());
                assert(all.skip(n) =~= all.subrange(n, all.len() as int));
                assert(all.subrange(n, all.len() as int)[0] == all[n]);
                assert(next.deep_view() == old_rest[0]);
                assert(next.deep_view() == all[n]);
                assert forall|j: int| 0 <= j < rest@.len() implies rest.deep_view()[j] == all.skip(
                    n + 1,
                )[j] by {
                    assert(rest@[j] == old_vec.remove(0)[j]);
                    assert(old_vec.remove(0) =~= old_vec.drop_first());
                    assert(rest@[j] == old_vec[j + 1]);
                    assert(rest.deep_view()[j] == old_rest[j + 1]);
                    assert(old_rest[j + 1] == all.skip(n)[j + 1]);
                    assert(all.skip(n)[j + 1] == all[n + j + 1]);
                }
                assert(rest.deep_view() =~= all.skip(n + 1));
            }
            acc = acc.merge_two(next);
            proof {
                assert(all.take(n + 1).drop_last() =~= all.take(n));
                assert(all.take(n + 1).last() == all[n]);
                assert(acc@.diagnostics =~= spec_concat_diags(all.take(n + 1)));
                n = n + 1;
            }
        }
        proof {
            assert(all.take(n) =~= all);
        }
        acc
    }
}

/// Every element's diagnostics, concatenated in element order.
pub open spec fn spec_concat_diags(errors: Seq<ErrorView>) -> Seq<DiagnosticView>
    decreases errors.len(),
{
    if errors.len() == 0 {
        Seq::empty()
    } else {
        spec_concat_diags(errors.drop_last()) + errors.last().diagnostics
    }
}

/// The error holding exactly one error-severity diagnostic with the given
/// message and span.
pub open spec fn spec_leaf_error(source: Seq<char>, message: Seq<char>, span: Option<Span>) -> ErrorView {
    ErrorView {
        display: None,
        source,
        diagnostics: seq![
            DiagnosticView {
                source,
                span,
                message: Some(message),
                label: None,
                help: None,
                severity: Severity::Error,
            },
        ],
    }
}

/// The display name of a scalar kind.
pub open spec fn spec_type_name(t: KdlValueType) -> Seq<char> {
    match t {
        KdlValueType::String => "string"@,
        KdlValueType::Integer => "integer"@,
        KdlValueType::Float => "float"@,
        KdlValueType::Bool => "bool"@,
        KdlValueType::Null => "null"@,
    }
}

/// The pieces of the "one of ..." enumeration up to (excluding) index `k`.
pub open spec fn spec_type_list_upto(ts: Seq<KdlValueType>, k: int) -> Seq<char>
    decreases k,
{
    if k <= 0 {
        Seq::empty()
    } else {
        spec_type_list_upto(ts, k - 1) + (if k - 1 > 0 {
            ", "@
        } else {
            Seq::<char>::empty()
        }) + (if k - 1 >= ts.len() - 1 {
            "or "@
        } else {
            Seq::<char>::empty()
        }) + spec_type_name(ts[k - 1])
    }
}

/// The phrase naming the scalar kinds a value should have had: one kind by
/// name, two as "either ... or ...", more as "one of ..., ..., or ...".
pub open spec fn spec_types_phrase(ts: Seq<KdlValueType>) -> Seq<char> {
    if ts.len() == 1 {
        spec_type_name(ts[0])
    } else if ts.len() == 2 {
        "either "@ + spec_type_name(ts[0]) + " or "@ + spec_type_name(ts[1])
    } else {
        "one of "@ + spec_type_list_upto(ts, ts.len() as int)
    }
}

/// The pieces of the allowed-variants enumeration up to (excluding) index `k`.
pub open spec fn spec_variant_list_upto(names: Seq<Seq<char>>, k: int) -> Seq<char>
    decreases k,
{
    if k <= 0 {
        Seq::empty()
    } else {
        spec_variant_list_upto(names, k - 1) + (if k - 1 > 0 {
            ", "@
        } else {
            Seq::<char>::empty()
        }) + spec_quoted(names[k - 1])
    }
}

/// The phrase listing every allowed variant name.
pub open spec fn spec_variants_phrase(names: Seq<Seq<char>>) -> Seq<char> {
    if names.len() == 1 {
        "the allowed variant is "@ + spec_quoted(names[0])
    } else if names.len() == 2 {
        "the allowed variants are "@ + spec_quoted(names[0]) + " and "@ + spec_quoted(names[1])
    } else {
        "the allowed variants are "@ + spec_variant_list_upto(names, names.len() as int)
    }
}

/// "Missing element '...'"
pub open spec fn spec_missing_element_msg(name: Seq<char>) -> Seq<char> {
    "Missing element "@ + spec_quoted(name)
}

/// "Element has no children"
pub open spec fn spec_no_children_msg() -> Seq<char> {
    "Element has no children"@
}

/// "Element missing property '...'" or "Element missing argument N"
pub open spec fn spec_no_entry_msg(key: KeyView) -> Seq<char> {
    match key {
        KeyView::Prop(k) => "Element missing property "@ + spec_quoted(k),
        KeyView::Index(i) => "Element missing argument "@ + spec_decimal(i),
    }
}

/// "Element value has type ... but should have been ..."
pub open spec fn spec_wrong_value_type_msg(actual: KdlValueType, acceptable: Seq<KdlValueType>) -> Seq<
    char,
> {
    "Element value has type "@ + spec_type_name(actual) + " but should have been "@
        + spec_types_phrase(acceptable)
}

/// "Element value parsing error: ..."
pub open spec fn spec_parse_error_msg(msg: Seq<char>) -> Seq<char> {
    "Element value parsing error: "@ + msg
}

/// "Invalid variant provided: '...', the allowed variants are ..."
pub open spec fn spec_not_a_variant_msg(provided: Seq<char>, variants: Seq<Seq<char>>) -> Seq<char> {
    "Invalid variant provided: "@ + spec_quoted(provided) + ", "@ + spec_variants_phrase(variants)
}

fn push_type_name(out: &mut String, t: KdlValueType)
    ensures
        final(out)@ == old(out)@ + spec_type_name(t),
{
    match t {
        KdlValueType::String => out.push_str("string"),
        KdlValueType::Integer => out.push_str("integer"),
        KdlValueType::Float => out.push_str("float"),
        KdlValueType::Bool => out.push_str("bool"),
        KdlValueType::Null => out.push_str("null"),
    }
}

fn push_types_phrase(out: &mut String, ts: &[KdlValueType])
    requires
        ts@.len() >= 1,
    ensures
        final(out)@ == old(out)@ + spec_types_phrase(ts@),
{
    if ts.len() == 1 {
        push_type_name(out, ts[0]);
    } else if ts.len() == 2 {
        out.push_str("either ");
        push_type_name(out, ts[0]);
        out.push_str(" or ");
        push_type_name(out, ts[1]);
        assert(out@ =~= old(out)@ + spec_types_phrase(ts@));
    } else {
        out.push_str("one of ");
        let ghost base = out@;
        let mut i: usize = 0;
        while i < ts.len()
            invariant
                i <= ts@.len(),
                ts@.len() >= 3,
                out@ == base + spec_type_list_upto(ts@, i as int),
            decreases ts@.len() - i,
        {
            if i > 0 {
                out.push_str(", ");
            }
            if i >= ts.len() - 1 {
                out.push_str("or ");
            }
            push_type_name(out, ts[i]);
            proof {
                assert(out@ =~= base + spec_type_list_upto(ts@, i + 1));
            }
            i += 1;
        }
        assert(out@ =~= old(out)@ + spec_types_phrase(ts@));
    }
}

fn push_variants_phrase(out: &mut String, names: &Vec<String>)
    requires
        names@.len() >= 1,
    ensures
        final(out)@ == old(out)@ + spec_variants_phrase(names.deep_view()),
{
    if names.len() == 1 {
        out.push_str("the allowed variant is ");
        push_quoted(out, names[0].as_str());
        assert(out@ =~= old(out)@ + spec_variants_phrase(names.deep_view()));
    } else if names.len() == 2 {
        out.push_str("the allowed variants are ");
        push_quoted(out, names[0].as_str());
        out.push_str(" and ");
        push_quoted(out, names[1].as_str());
        assert(out@ =~= old(out)@ + spec_variants_phrase(names.deep_view()));
    } else {
        out.push_str("the allowed variants are ");
        let ghost base = out@;
        let mut i: usize = 0;
        while i < names.len()
            invariant
                i <= names@.len(),
                names@.len() >= 3,
                out@ == base + spec_variant_list_upto(names.deep_view(), i as int),
            decreases names@.len() - i,
        {
            if i > 0 {
                out.push_str(", ");
            }
            push_quoted(out, names[i].as_str());
            proof {
                assert(names.deep_view()[i as int] == names@[i as int]@);
                assert(out@ =~= base + spec_variant_list_upto(names.deep_view(), i + 1));
            }
            i += 1;
        }
        assert(out@ =~= old(out)@ + spec_variants_phrase(names.deep_view()));
    }
}

impl KdlBindError {
    /// An error holding one error-severity diagnostic with the given message
    /// and span, against the given source text.
    pub fn err(source: &String, message: String, span: Option<Span>) -> (e: KdlBindError)
        ensures
            e@ == spec_leaf_error(source@, message@, span),
    {
        let diagnostic = KdlBindDiagnostic {
            source: source.clone(),
            span,
            message: Some(message),
            label: None,
            help: None,
            severity: Severity::Error,
        };
        let mut diagnostics: Vec<KdlBindDiagnostic> = Vec::new();
        diagnostics.push(diagnostic);
        let e = KdlBindError { display: None, source: source.clone(), diagnostics };
        proof {
            assert(e@.diagnostics =~= spec_leaf_error(source@, message@, span).diagnostics);
        }
        e
    }

    /// A required element of the given name was absent.
    pub fn missing_element(source: &String, name: &str) -> (e: KdlBindError)
        ensures
            e@ == spec_leaf_error(source@, spec_missing_element_msg(name@), None),
    {
        let mut message = String::new();
        message.push_str("Missing element ");
        push_quoted(&mut message, name);
        proof {
            assert(message@ =~= spec_missing_element_msg(name@));
        }
        KdlBindError::err(source, message, None)
    }

    /// An element that should have had children had none.
    pub fn no_children(source: &String, span: Span) -> (e: KdlBindError)
        ensures
            e@ == spec_leaf_error(source@, spec_no_children_msg(), Some(span)),
    {
        let mut message = String::new();
        message.push_str("Element has no children");
        proof {
            assert(message@ =~= spec_no_children_msg());
        }
        KdlBindError::err(source, message, Some(span))
    }

    /// A required entry (argument or property) was absent.
    pub fn no_entry(source: &String, key: &NodeKey, span: Span) -> (e: KdlBindError)
        ensures
            e@ == spec_leaf_error(source@, spec_no_entry_msg(key@), Some(span)),
    {
        let mut message = String::new();
        match key {
            NodeKey::Key(k) => {
                message.push_str("Element missing property ");
                push_quoted(&mut message, k.as_str());
            },
            NodeKey::Index(i) => {
                message.push_str("Element missing argument ");
                push_decimal(&mut message, *i);
            },
        }
        proof {
            assert(message@ =~= spec_no_entry_msg(key@));
        }
        KdlBindError::err(source, message, Some(span))
    }

    /// An entry held a scalar of the wrong kind.
    pub fn wrong_value_type(
        source: &String,
        actual: KdlValueType,
        acceptable: &[KdlValueType],
        span: Span,
    ) -> (e: KdlBindError)
        requires
            acceptable@.len() >= 1,
        ensures
            e@ == spec_leaf_error(source@, spec_wrong_value_type_msg(actual, acceptable@), Some(span)),
    {
        let mut message = String::new();
        message.push_str("Element value has type ");
        push_type_name(&mut message, actual);
        message.push_str(" but should have been ");
        push_types_phrase(&mut message, acceptable);
        proof {
            assert(message@ =~= spec_wrong_value_type_msg(actual, acceptable@));
        }
        KdlBindError::err(source, message, Some(span))
    }

    /// A value failed to parse or resolve; the inner message says why.
    pub fn parse_error(source: &String, msg: &str, span: Span) -> (e: KdlBindError)
        ensures
            e@ == spec_leaf_error(source@, spec_parse_error_msg(msg@), Some(span)),
    {
        let mut message = String::new();
        message.push_str("Element value parsing error: ");
        message.push_str(msg);
        proof {
            assert(message@ =~= spec_parse_error_msg(msg@));
        }
        KdlBindError::err(source, message, Some(span))
    }

    /// A string was none of the allowed variant names.
    pub fn not_a_variant(source: &String, provided: &str, variants: &Vec<String>, span: Span) -> (e:
        KdlBindError)
        requires
            variants@.len() >= 1,
        ensures
            e@ == spec_leaf_error(
                source@,
                spec_not_a_variant_msg(provided@, variants.deep_view()),
                Some(span),
            ),
    {
        let mut message = String::new();
        message.push_str("Invalid variant provided: ");
        push_quoted(&mut message, provided);
        message.push_str(", ");
        push_variants_phrase(&mut message, variants);
        proof {
            assert(message@ =~= spec_not_a_variant_msg(provided@, variants.deep_view()));
        }
        KdlBindError::err(source, message, Some(span))
    }
}

/// The diagnostics a fallible computation contributed: none on success, its
/// error's diagnostics on failure.
pub open spec fn spec_err_diags<T>(r: Result<T, KdlBindError>) -> Seq<DiagnosticView> {
    match r {
        Result::Ok(_) => Seq::empty(),
        Result::Err(e) => e@.diagnostics,
    }
}

/// The display string of the first failing computation of two.
pub open spec fn spec_err2_display<T0, T1>(
    r0: Result<T0, KdlBindError>,
    r1: Result<T1, KdlBindError>,
) -> Option<Seq<char>> {
    if r0 is Err {
        r0->Err_0@.display
    } else {
        r1->Err_0@.display
    }
}

/// The source text of the first failing computation of two.
pub open spec fn spec_err2_source<T0, T1>(
    r0: Result<T0, KdlBindError>,
    r1: Result<T1, KdlBindError>,
) -> Seq<char> {
    if r0 is Err {
        r0->Err_0@.source
    } else {
        r1->Err_0@.source
    }
}

/// Merges two independently-computed fallible results: both successes give
/// the pair of values; otherwise every failing side's diagnostics are
/// concatenated, in element order, into one error.
pub fn merge2<T0, T1>(r0: Result<T0, KdlBindError>, r1: Result<T1, KdlBindError>) -> (r: Result<
    (T0, T1),
    KdlBindError,
>)
    ensures
        r is Ok <==> (r0 is Ok && r1 is Ok),
        r matches Ok(v) ==> r0 matches Ok(a) && r1 matches Ok(b) && v == (a, b),
        r matches Err(e) ==> e@.diagnostics == spec_err_diags(r0) + spec_err_diags(r1)
            && e@.display == spec_err2_display(r0, r1) && e@.source == spec_err2_source(r0, r1),
{
    match (r0, r1) {
        (Ok(a), Ok(b)) => Ok((a, b)),
        (Err(e), Ok(_)) => {
            proof {
                assert(e@.diagnostics + Seq::<DiagnosticView>::empty() =~= e@.diagnostics);
            }
            Err(e)
        },
        (Ok(_), Err(e)) => {
            proof {
                assert(Seq::<DiagnosticView>::empty() + e@.diagnostics =~= e@.diagnostics);
            }
            Err(e)
        },
        (Err(e0), Err(e1)) => Err(e0.merge_two(e1)),
    }
}

/// Merges three independently-computed fallible results, as `merge2` does
/// for two.
pub fn merge3<T0, T1, T2>(
    r0: Result<T0, KdlBindError>,
    r1: Result<T1, KdlBindError>,
    r2: Result<T2, KdlBindError>,
) -> (r: Result<(T0, T1, T2), KdlBindError>)
    ensures
        r is Ok <==> (r0 is Ok && r1 is Ok && r2 is Ok),
        r matches Ok(v) ==> r0 matches Ok(a) && r1 matches Ok(b) && r2 matches Ok(c) && v == (
            a,
            b,
            c,
        ),
        r matches Err(e) ==> e@.diagnostics == spec_err_diags(r0) + spec_err_diags(r1)
            + spec_err_diags(r2) && e@.display == (
            if r0 is Err {
                r0->Err_0@.display
            } else if r1 is Err {
                r1->Err_0@.display
            } else {
                r2->Err_0@.display
            }
        ) && e@.source == (
            if r0 is Err {
                r0->Err_0@.source
            } else if r1 is Err {
                r1->Err_0@.source
            } else {
                r2->Err_0@.source
            }
        ),
{
    let r01 = merge2(r0, r1);
    match merge2(r01, r2) {
        Ok(((a, b), c)) => Ok((a, b, c)),
        Err(e) => {
            proof {
                assert(e@.diagnostics =~= spec_err_diags(r0) + spec_err_diags(r1) + spec_err_diags(
                    r2,
                ));
            }
            Err(e)
        },
    }
}

/// Merges four independently-computed fallible results, as `merge2` does
/// for two.
pub fn merge4<T0, T1, T2, T3>(
    r0: Result<T0, KdlBindError>,
    r1: Result<T1, KdlBindError>,
    r2: Result<T2, KdlBindError>,
    r3: Result<T3, KdlBindError>,
) -> (r: Result<(T0, T1, T2, T3), KdlBindError>)
    ensures
        r is Ok <==> (r0 is Ok && r1 is Ok && r2 is Ok && r3 is Ok),
        r matches Ok(v) ==> r0 matches Ok(a) && r1 matches Ok(b) && r2 matches Ok(c) && r3 matches
            Ok(d) && v == (a, b, c, d),
        r matches Err(e) ==> e@.diagnostics == spec_err_diags(r0) + spec_err_diags(r1)
            + spec_err_diags(r2) + spec_err_diags(r3) && e@.display == (
            if r0 is Err {
                r0->Err_0@.display
            } else if r1 is Err {
                r1->Err_0@.display
            } else if r2 is Err {
                r2->Err_0@.display
            } else {
                r3->Err_0@.display
            }
        ) && e@.source == (
            if r0 is Err {
                r0->Err_0@.source
            } else if r1 is Err {
                r1->Err_0@.source
            } else if r2 is Err {
                r2->Err_0@.source
            } else {
                r3->Err_0@.source
            }
        ),
{
    let r01 = merge2(r0, r1);
    let r23 = merge2(r2, r3);
    match merge2(r01, r23) {
        Ok(((a, b), (c, d))) => Ok((a, b, c, d)),
        Err(e) => {
            proof {
                assert(e@.diagnostics =~= spec_err_diags(r0) + spec_err_diags(r1) + spec_err_diags(
                    r2,
                ) + spec_err_diags(r3));
            }
            Err(e)
        },
    }
}

/// Merges five independently-computed fallible results, as `merge2` does
/// for two.
pub fn merge5<T0, T1, T2, T3, T4>(
    r0: Result<T0, KdlBindError>,
    r1: Result<T1, KdlBindError>,
    r2: Result<T2, KdlBindError>,
    r3: Result<T3, KdlBindError>,
    r4: Result<T4, KdlBindError>,
) -> (r: Result<(T0, T1, T2, T3, T4), KdlBindError>)
    ensures
        r is Ok <==> (r0 is Ok && r1 is Ok && r2 is Ok && r3 is Ok && r4 is Ok),
        r matches Ok(v) ==> r0 matches Ok(a) && r1 matches Ok(b) && r2 matches Ok(c) && r3 matches
            Ok(d) && r4 matches Ok(f) && v == (a, b, c, d, f),
        r matches Err(e) ==> e@.diagnostics == spec_err_diags(r0) + spec_err_diags(r1)
            + spec_err_diags(r2) + spec_err_diags(r3) + spec_err_diags(r4) && e@.display == (
            if r0 is Err {
                r0->Err_0@.display
            } else if r1 is Err {
                r1->Err_0@.display
            } else if r2 is Err {
                r2->Err_0@.display
            } else if r3 is Err {
                r3->Err_0@.display
            } else {
                r4->Err_0@.display
            }
        ) && e@.source == (
            if r0 is Err {
                r0->Err_0@.source
            } else if r1 is Err {
                r1->Err_0@.source
            } else if r2 is Err {
                r2->Err_0@.source
            } else if r3 is Err {
                r3->Err_0@.source
            } else {
                r4->Err_0@.source
            }
        ),
{
    let r0123 = merge4(r0, r1, r2, r3);
    match merge2(r0123, r4) {
        Ok(((a, b, c, d), f)) => Ok((a, b, c, d, f)),
        Err(e) => {
            proof {
                assert(e@.diagnostics =~= spec_err_diags(r0) + spec_err_diags(r1) + spec_err_diags(
                    r2,
                ) + spec_err_diags(r3) + spec_err_diags(r4));
            }
            Err(e)
        },
    }
}

/// The diagnostics of every failing element, concatenated in element order.
pub open spec fn spec_concat_err_diags<T>(rs: Seq<Result<T, KdlBindError>>) -> Seq<DiagnosticView>
    decreases rs.len(),
{
    if rs.len() == 0 {
        Seq::empty()
    } else {
        spec_concat_err_diags(rs.drop_last()) + spec_err_diags(rs.last())
    }
}

/// The values of a sequence of results, all of which succeeded.
pub open spec fn spec_ok_values<T>(rs: Seq<Result<T, KdlBindError>>) -> Seq<T>
    decreases rs.len(),
{
    if rs.len() == 0 {
        Seq::empty()
    } else {
        spec_ok_values(rs.drop_last()) + (match rs.last() {
            Result::Ok(t) => seq![t],
            Result::Err(_) => Seq::empty(),
        })
    }
}

/// When every element succeeded, the collected values line up with the
/// elements.
pub proof fn lemma_ok_values_all_ok<T>(rs: Seq<Result<T, KdlBindError>>)
    requires
        forall|i: int| 0 <= i < rs.len() ==> rs[i] is Ok,
    ensures
        spec_ok_values(rs).len() == rs.len(),
        forall|i: int| 0 <= i < rs.len() ==> spec_ok_values(rs)[i] == rs[i]->Ok_0,
    decreases rs.len(),
{
    if rs.len() > 0 {
        lemma_ok_values_all_ok(rs.drop_last());
        assert(rs.last() is Ok);
        assert(spec_ok_values(rs) =~= spec_ok_values(rs.drop_last()) + seq![rs.last()->Ok_0]);
    }
}

/// Merges a list of independently-computed fallible results: all successes
/// give the list of values in order; otherwise one error concatenates the
/// diagnostics of every failing element, in element order, under the first
/// failing element's display string and source.
pub fn merge_vec<T>(results: Vec<Result<T, KdlBindError>>) -> (r: Result<Vec<T>, KdlBindError>)
    ensures
        r is Ok <==> (forall|i: int| 0 <= i < results@.len() ==> results@[i] is Ok),
        r matches Ok(v) ==> v@.len() == results@.len() && (forall|i: int|
            0 <= i < results@.len() ==> v@[i] == results@[i]->Ok_0),
        r matches Err(e) ==> {
            &&& e@.diagnostics == spec_concat_err_diags(results@)
            &&& exists|j: int|
                {
                    &&& 0 <= j < results@.len()
                    &&& results@[j] is Err
                    &&& (forall|k: int| 0 <= k < j ==> results@[k] is Ok)
                    &&& e@.display == results@[j]->Err_0@.display
                    &&& e@.source == results@[j]->Err_0@.source
                }
        },
{
    let ghost all = results@;
    let mut rest = results;
    let mut oks: Vec<T> = Vec::new();
    let mut err_acc: Option<KdlBindError> = None;
    let ghost mut n: int = 0;
    let ghost mut first_err: int = 0;
    proof {
        assert(rest@ =~= all.skip(0));
        assert(oks@ =~= spec_ok_values(all.take(0)));
        assert(spec_concat_err_diags(all.take(0)) =~= Seq::<DiagnosticView>::empty());
    }
    while rest.len() > 0
        invariant
            0 <= n <= all.len(),
            rest@ =~= all.skip(n),
            oks@ == spec_ok_values(all.take(n)),
            err_acc is None ==> (forall|k: int| 0 <= k < n ==> all[k] is Ok),
            err_acc matches Some(acc) ==> {
                &&& 0 <= first_err < n
                &&& all[first_err] is Err
                &&& (forall|k: int| 0 <= k < first_err ==> all[k] is Ok)
                &&& acc@.display == all[first_err]->Err_0@.display
                &&& acc@.source == all[first_err]->Err_0@.source
                &&& acc@.diagnostics == spec_concat_err_diags(all.take(n))
            },
        decreases rest@.len(),
    {
        proof {
            assert(all.skip(n).len() == all.len() - n);
            assert(n < all.len());
        }
        let next = rest.remove(0);
        proof {
            assert(next == all.skip(n)[0]);
            assert(all.skip(n)[0] == all[n]);
            assert(rest@ =~= all.skip(n + 1));
            assert(all.take(n + 1).drop_last() =~= all.take(n));
            assert(all.take(n + 1).last() == all[n]);
        }
        match next {
            Ok(t) => {
                oks.push(t);
                proof {
                    assert(oks@ =~= spec_ok_values(all.take(n + 1)));
                }
            },
            Err(e) => {
                proof {
                    assert(spec_err_diags(all[n]) == e@.diagnostics);
                }
                match err_acc {
                    None => {
                        proof {
                            first_err = n;
                            assert(spec_concat_err_diags(all.take(n)) =~= Seq::<
                                DiagnosticView,
                            >::empty()) by {
                                lemma_concat_err_diags_all_ok(all.take(n));
                            }
                            assert(e@.diagnostics =~= spec_concat_err_diags(all.take(n))
                                + e@.diagnostics);
                        }
                        err_acc = Some(e);
                    },
                    Some(acc) => {
                        err_acc = Some(acc.merge_two(e));
                    },
                }
            },
        }
        proof {
            n = n + 1;
        }
    }
    proof {
        assert(all.take(n) =~= all);
    }
    match err_acc {
        None => {
            proof {
                lemma_ok_values_all_ok(all);
            }
            Ok(oks)
        },
        Some(acc) => Err(acc),
    }
}

/// A prefix of successes contributes no diagnostics.
proof fn lemma_concat_err_diags_all_ok<T>(rs: Seq<Result<T, KdlBindError>>)
    requires
        forall|i: int| 0 <= i < rs.len() ==> rs[i] is Ok,
    ensures
        spec_concat_err_diags(rs) == Seq::<DiagnosticView>::empty(),
    decreases rs.len(),
{
    if rs.len() > 0 {
        lemma_concat_err_diags_all_ok(rs.drop_last());
        assert(rs.last() is Ok);
        assert(spec_concat_err_diags(rs) =~= Seq::<DiagnosticView>::empty());
    }
}

/// The diagnostics a fallible computation contributed, at the level of
/// mathematical values.
pub open spec fn spec_err_diags_v<T>(r: Result<T, ErrorView>) -> Seq<DiagnosticView> {
    match r {
        Result::Ok(_) => Seq::empty(),
        Result::Err(e) => e.diagnostics,
    }
}

/// The diagnostics of every failing element, concatenated in element
/// order, at the level of mathematical values.
pub open spec fn spec_concat_err_diags_v<T>(rs: Seq<Result<T, ErrorView>>) -> Seq<DiagnosticView>
    decreases rs.len(),
{
    if rs.len() == 0 {
        Seq::empty()
    } else {
        spec_concat_err_diags_v(rs.drop_last()) + spec_err_diags_v(rs.last())
    }
}

/// Merging two results at the level of mathematical values: both successes
/// give the pair; otherwise one error concatenates the failing sides'
/// diagnostics in order, under the first failing side's display string and
/// source.
pub open spec fn spec_merge2_views<A, B>(ra: Result<A, ErrorView>, rb: Result<B, ErrorView>) -> Result<
    (A, B),
    ErrorView,
> {
    match (ra, rb) {
        (Result::Ok(a), Result::Ok(b)) => Result::Ok((a, b)),
        (Result::Err(e), Result::Ok(_)) => Result::Err(e),
        (Result::Ok(_), Result::Err(e)) => Result::Err(e),
        (Result::Err(e0), Result::Err(e1)) => Result::Err(
            ErrorView {
                display: e0.display,
                source: e0.source,
                diagnostics: e0.diagnostics + e1.diagnostics,
            },
        ),
    }
}

/// Merging a sequence of results at the level of mathematical values, in
/// element order.
pub open spec fn spec_merge_views<T>(rs: Seq<Result<T, ErrorView>>) -> Result<Seq<T>, ErrorView>
    decreases rs.len(),
{
    if rs.len() == 0 {
        Result::Ok(Seq::empty())
    } else {
        match (spec_merge_views(rs.drop_last()), rs.last()) {
            (Result::Ok(vs), Result::Ok(t)) => Result::Ok(vs.push(t)),
            (Result::Ok(_), Result::Err(e)) => Result::Err(e),
            (Result::Err(e), Result::Ok(_)) => Result::Err(e),
            (Result::Err(e0), Result::Err(e1)) => Result::Err(
                ErrorView {
                    display: e0.display,
                    source: e0.source,
                    diagnostics: e0.diagnostics + e1.diagnostics,
                },
            ),
        }
    }
}

/// The one error merging two results, at least one of which failed: the
/// first failing side's display string and source, and the concatenated
/// diagnostics.
pub open spec fn spec_err2_view<A, B>(ra: Result<A, ErrorView>, rb: Result<B, ErrorView>) -> ErrorView {
    ErrorView {
        display: if ra is Err {
            ra->Err_0.display
        } else {
            rb->Err_0.display
        },
        source: if ra is Err {
            ra->Err_0.source
        } else {
            rb->Err_0.source
        },
        diagnostics: spec_err_diags_v(ra) + spec_err_diags_v(rb),
    }
}

/// As `spec_err2_view`, over three results.
pub open spec fn spec_err3_view<A, B, C>(
    ra: Result<A, ErrorView>,
    rb: Result<B, ErrorView>,
    rc: Result<C, ErrorView>,
) -> ErrorView {
    ErrorView {
        display: if ra is Err {
            ra->Err_0.display
        } else if rb is Err {
            rb->Err_0.display
        } else {
            rc->Err_0.display
        },
        source: if ra is Err {
            ra->Err_0.source
        } else if rb is Err {
            rb->Err_0.source
        } else {
            rc->Err_0.source
        },
        diagnostics: spec_err_diags_v(ra) + spec_err_diags_v(rb) + spec_err_diags_v(rc),
    }
}

/// As `spec_err2_view`, over four results.
pub open spec fn spec_err4_view<A, B, C, D>(
    ra: Result<A, ErrorView>,
    rb: Result<B, ErrorView>,
    rc: Result<C, ErrorView>,
    rd: Result<D, ErrorView>,
) -> ErrorView {
    ErrorView {
        display: if ra is Err {
            ra->Err_0.display
        } else if rb is Err {
            rb->Err_0.display
        } else if rc is Err {
            rc->Err_0.display
        } else {
            rd->Err_0.display
        },
        source: if ra is Err {
            ra->Err_0.source
        } else if rb is Err {
            rb->Err_0.source
        } else if rc is Err {
            rc->Err_0.source
        } else {
            rd->Err_0.source
        },
        diagnostics: spec_err_diags_v(ra) + spec_err_diags_v(rb) + spec_err_diags_v(rc)
            + spec_err_diags_v(rd),
    }
}

/// As `spec_err2_view`, over five results.
pub open spec fn spec_err5_view<A, B, C, D, E>(
    ra: Result<A, ErrorView>,
    rb: Result<B, ErrorView>,
    rc: Result<C, ErrorView>,
    rd: Result<D, ErrorView>,
    re: Result<E, ErrorView>,
) -> ErrorView {
    ErrorView {
        display: if ra is Err {
            ra->Err_0.display
        } else if rb is Err {
            rb->Err_0.display
        } else if rc is Err {
            rc->Err_0.display
        } else if rd is Err {
            rd->Err_0.display
        } else {
            re->Err_0.display
        },
        source: if ra is Err {
            ra->Err_0.source
        } else if rb is Err {
            rb->Err_0.source
        } else if rc is Err {
            rc->Err_0.source
        } else if rd is Err {
            rd->Err_0.source
        } else {
            re->Err_0.source
        },
        diagnostics: spec_err_diags_v(ra) + spec_err_diags_v(rb) + spec_err_diags_v(rc)
            + spec_err_diags_v(rd) + spec_err_diags_v(re),
    }
}

/// As `spec_err2_view`, over six results.
pub open spec fn spec_err6_view<A, B, C, D, E, F>(
    ra: Result<A, ErrorView>,
    rb: Result<B, ErrorView>,
    rc: Result<C, ErrorView>,
    rd: Result<D, ErrorView>,
    re: Result<E, ErrorView>,
    rf: Result<F, ErrorView>,
) -> ErrorView {
    ErrorView {
        display: if ra is Err {
            ra->Err_0.display
        } else if rb is Err {
            rb->Err_0.display
        } else if rc is Err {
            rc->Err_0.display
        } else if rd is Err {
            rd->Err_0.display
        } else if re is Err {
            re->Err_0.display
        } else {
            rf->Err_0.display
        },
        source: if ra is Err {
            ra->Err_0.source
        } else if rb is Err {
            rb->Err_0.source
        } else if rc is Err {
            rc->Err_0.source
        } else if rd is Err {
            rd->Err_0.source
        } else if re is Err {
            re->Err_0.source
        } else {
            rf->Err_0.source
        },
        diagnostics: spec_err_diags_v(ra) + spec_err_diags_v(rb) + spec_err_diags_v(rc)
            + spec_err_diags_v(rd) + spec_err_diags_v(re) + spec_err_diags_v(rf),
    }
}

/// Whether a computed result stands for the given mathematical one.
pub open spec fn result_corresponds<TE: View>(
    r: Result<TE, KdlBindError>,
    s: Result<TE::V, ErrorView>,
) -> bool {
    match r {
        Result::Ok(t) => s == Result::<TE::V, ErrorView>::Ok(t@),
        Result::Err(e) => s == Result::<TE::V, ErrorView>::Err(e@),
    }
}

/// Ties the quantities `merge_vec`'s contract speaks of to the sequence
/// merge over the corresponding mathematical results.
pub proof fn lemma_merge_vec_bridge<TE: View>(
    rs: Seq<Result<TE, KdlBindError>>,
    specs: Seq<Result<TE::V, ErrorView>>,
)
    requires
        specs.len() == rs.len(),
        forall|i: int| 0 <= i < rs.len() ==> result_corresponds(rs[i], #[trigger] specs[i]),
    ensures
        spec_merge_views(specs) is Ok <==> (forall|i: int| 0 <= i < rs.len() ==> rs[i] is Ok),
        spec_merge_views(specs) matches Ok(vs) ==> vs.len() == rs.len() && (forall|i: int|
            0 <= i < rs.len() ==> vs[i] == (#[trigger] rs[i])->Ok_0@),
        spec_merge_views(specs) matches Err(e) ==> e.diagnostics == spec_concat_err_diags(rs) && (
        forall|j: int|
            (0 <= j < rs.len() && rs[j] is Err && (forall|k: int| 0 <= k < j ==> rs[k] is Ok))
                ==> e.display == (#[trigger] rs[j])->Err_0@.display && e.source
                == rs[j]->Err_0@.source),
    decreases rs.len(),
{
    if rs.len() == 0 {
    } else {
        lemma_merge_vec_bridge::<TE>(rs.drop_last(), specs.drop_last());
        assert(specs.drop_last().len() == rs.drop_last().len());
        assert(forall|i: int|
            0 <= i < rs.drop_last().len() ==> result_corresponds(
                rs.drop_last()[i],
                #[trigger] specs.drop_last()[i],
            ));
        let n = rs.len() - 1;
        assert(result_corresponds(rs[n], specs[n]));
        assert(specs.last() == specs[n] && rs.last() == rs[n]);
        assert(forall|i: int| 0 <= i < n ==> rs.drop_last()[i] == #[trigger] rs[i]);
        assert(forall|i: int| 0 <= i < n ==> specs.drop_last()[i] == #[trigger] specs[i]);
        match (spec_merge_views(specs.drop_last()), specs.last()) {
            (Result::Ok(vs), Result::Ok(t)) => {
                assert(spec_merge_views(specs) == Result::<Seq<TE::V>, ErrorView>::Ok(vs.push(t)));
                assert(forall|i: int| 0 <= i < n ==> #[trigger] vs.push(t)[i] == vs[i]);
                assert(vs.push(t)[n] == t);
                assert(rs[n] is Ok && t == rs[n]->Ok_0@);
            },
            (Result::Ok(_), Result::Err(e)) => {
                assert(spec_concat_err_diags(rs.drop_last()) =~= Seq::<DiagnosticView>::empty())
                    by {
                    lemma_concat_err_diags_all_ok(rs.drop_last());
                }
                assert(e.diagnostics =~= spec_concat_err_diags(rs));
            },
            (Result::Err(e), Result::Ok(_)) => {
                assert(e.diagnostics =~= spec_concat_err_diags(rs));
            },
            (Result::Err(e0), Result::Err(e1)) => {
                assert(e0.diagnostics + e1.diagnostics =~= spec_concat_err_diags(rs));
            },
        }
    }
}

/// Merging fallible computations into one result that either carries every
/// value or concatenates every failure's diagnostics.
pub trait MergeKdlBindError {
    type MergeResult;

    fn merge(self) -> Self::MergeResult;
}

impl<T0, T1> MergeKdlBindError for (Result<T0, KdlBindError>, Result<T1, KdlBindError>) {
    type MergeResult = Result<(T0, T1), KdlBindError>;

    fn merge(self) -> Self::MergeResult {
        merge2(self.0, self.1)
    }
}

impl<T0, T1, T2> MergeKdlBindError for (
    Result<T0, KdlBindError>,
    Result<T1, KdlBindError>,
    Result<T2, KdlBindError>,
) {
    type MergeResult = Result<(T0, T1, T2), KdlBindError>;

    fn merge(self) -> Self::MergeResult {
        merge3(self.0, self.1, self.2)
    }
}

impl<T0, T1, T2, T3> MergeKdlBindError for (
    Result<T0, KdlBindError>,
    Result<T1, KdlBindError>,
    Result<T2, KdlBindError>,
    Result<T3, KdlBindError>,
) {
    type MergeResult = Result<(T0, T1, T2, T3), KdlBindError>;

    fn merge(self) -> Self::MergeResult {
        merge4(self.0, self.1, self.2, self.3)
    }
}

impl<T0, T1, T2, T3, T4> MergeKdlBindError for (
    Result<T0, KdlBindError>,
    Result<T1, KdlBindError>,
    Result<T2, KdlBindError>,
    Result<T3, KdlBindError>,
    Result<T4, KdlBindError>,
) {
    type MergeResult = Result<(T0, T1, T2, T3, T4), KdlBindError>;

    fn merge(self) -> Self::MergeResult {
        merge5(self.0, self.1, self.2, self.3, self.4)
    }
}

impl<T> MergeKdlBindError for Vec<Result<T, KdlBindError>> {
    type MergeResult = Result<Vec<T>, KdlBindError>;

    fn merge(self) -> Self::MergeResult {
        merge_vec(self)
    }
}

} // verus!
