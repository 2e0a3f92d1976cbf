//! Validation results of configuration values and how they are rendered as text.
//!
//! A failed validation is a tree: each entry names a field and holds either the
//! errors of that field or the failed validation of a nested structure.
use vstd::prelude::*;
use vstd::string::*;
use crate::text::{debug_quoted, debug_text, decimal, decimal_text, join};
use validator::ValidateLength;
use validator::ValidateRange;
use validator::ValidateUrl;

verus! {

/// A parameter value attached to a field error.
#[derive(Debug)]
pub enum ParamValue {
    Text(String),
    Number(u64),
}

/// A named parameter of a field error (such as the offending value).
#[derive(Debug)]
pub struct ErrorParam {
    pub name: String,
    pub value: ParamValue,
}

/// One failed rule on one field.
#[derive(Debug)]
pub struct FieldError {
    pub code: String,
    pub message: Option<String>,
    pub params: Vec<ErrorParam>,
}

/// What failed under a field name.
#[derive(Debug)]
pub enum ErrorsKind {
    Field(Vec<FieldError>),
    Struct(Box<ValidationErrors>),
}

/// One field name with what failed under it.
#[derive(Debug)]
pub struct ErrorEntry {
    pub field: String,
    pub kind: ErrorsKind,
}

/// A failed validation: the failing fields, in the order in which they were checked.
#[derive(Debug)]
pub struct ValidationErrors {
    pub entries: Vec<ErrorEntry>,
}

/// Model of a parameter value.
pub enum ParamView {
    Text(Seq<char>),
    Number(u64),
}

/// Model of a field error.
pub struct FieldErrorView {
    pub code: Seq<char>,
    pub message: Option<Seq<char>>,
    pub params: Seq<(Seq<char>, ParamView)>,
}

/// Model of what failed under a field name.
pub enum KindView {
    Field(Seq<FieldErrorView>),
    Struct(Seq<EntryView>),
}

/// Model of one entry of a failed validation.
pub struct EntryView {
    pub field: Seq<char>,
    pub kind: KindView,
}

impl View for ParamValue {
    type V = ParamView;

    open spec fn view(&self) -> ParamView {
        match self {
            ParamValue::Text(s) => ParamView::Text(s@),
            ParamValue::Number(n) => ParamView::Number(*n),
        }
    }
}

impl View for ErrorParam {
    type V = (Seq<char>, ParamView);

    open spec fn view(&self) -> (Seq<char>, ParamView) {
        (self.name@, self.value@)
    }
}

pub open spec fn option_text_view(o: Option<String>) -> Option<Seq<char>> {
    match o {
        Some(s) => Some(s@),
        None => None,
    }
}

impl View for FieldError {
    type V = FieldErrorView;

    open spec fn view(&self) -> FieldErrorView {
        FieldErrorView {
            code: self.code@,
            message: option_text_view(self.message),
            params: self.params@.map_values(|p: ErrorParam| p@),
        }
    }
}

/// Model of an exec kind.
pub open spec fn kind_view(k: ErrorsKind) -> KindView
    decreases k,
{
    match k {
        ErrorsKind::Field(v) => KindView::Field(v@.map_values(|e: FieldError| e@)),
        ErrorsKind::Struct(b) => KindView::Struct(entries_view(b.entries@)),
    }
}

/// Model of a sequence of exec entries.
pub open spec fn entries_view(es: Seq<ErrorEntry>) -> Seq<EntryView>
    decreases es,
{
    if es.len() == 0 {
        Seq::empty()
    } else {
        let last = es[es.len() - 1];
        entries_view(es.subrange(0, es.len() - 1)).push(
            EntryView { field: last.field@, kind: kind_view(last.kind) },
        )
    }
}

impl View for ErrorEntry {
    type V = EntryView;

    open spec fn view(&self) -> EntryView {
        EntryView { field: self.field@, kind: kind_view(self.kind) }
    }
}

impl View for ValidationErrors {
    type V = Seq<EntryView>;

    open spec fn view(&self) -> Seq<EntryView> {
        entries_view(self.entries@)
    }
}

pub proof fn lemma_entries_view(es: Seq<ErrorEntry>)
    ensures
        entries_view(es).len() == es.len(),
        forall|i: int| 0 <= i < es.len() ==> #[trigger] entries_view(es)[i] == es[i]@,
    decreases es.len(),
{
    if es.len() > 0 {
        let init = es.subrange(0, es.len() - 1);
        lemma_entries_view(init);
        assert forall|i: int| 0 <= i < es.len() implies #[trigger] entries_view(es)[i] == es[i]@ by {
            if i < es.len() - 1 {
                assert(init[i] == es[i]);
            }
        }
    }
}

// ---------------------------------------------------------------------------
// Rendering
// ---------------------------------------------------------------------------

/// Text of a parameter value, as its JSON value prints in debug form.
pub open spec fn render_value(v: ParamView) -> Seq<char> {
    match v {
        ParamView::Text(s) => "String("@ + debug_quoted(s) + ")"@,
        ParamView::Number(n) => "Number("@ + decimal(n as nat) + ")"@,
    }
}

/// Text of one parameter: its quoted name, a colon and its value.
pub open spec fn render_param(p: (Seq<char>, ParamView)) -> Seq<char> {
    debug_quoted(p.0) + ": "@ + render_value(p.1)
}

/// Text of the parameters of an error, as a map prints in debug form.
pub open spec fn render_params(ps: Seq<(Seq<char>, ParamView)>) -> Seq<char> {
    "{"@ + join(ps.map_values(|p: (Seq<char>, ParamView)| render_param(p)), ", "@) + "}"@
}

/// Text of one field error: its message, or a description by code and parameters.
pub open spec fn render_error(e: FieldErrorView) -> Seq<char> {
    match e.message {
        Some(m) => m,
        None => "Validation error: "@ + e.code + " ["@ + render_params(e.params) + "]"@,
    }
}

/// Text of the errors of one field, separated by commas.
pub open spec fn render_field_errors(es: Seq<FieldErrorView>) -> Seq<char> {
    join(es.map_values(|e: FieldErrorView| render_error(e)), ", "@)
}

/// Text of the entries of a nested structure found under `path`: each field
/// prints under its dotted path, one after the other.
pub open spec fn render_nested(entries: Seq<EntryView>, path: Seq<char>) -> Seq<char>
    decreases entries,
{
    if entries.len() == 0 {
        Seq::empty()
    } else {
        let last = entries[entries.len() - 1];
        let sub = path + "."@ + last.field;
        render_nested(entries.subrange(0, entries.len() - 1), path) + match last.kind {
            KindView::Field(es) => sub + ": "@ + render_field_errors(es),
            KindView::Struct(inner) => render_nested(inner, sub),
        }
    }
}

/// Text of one top-level entry.
pub open spec fn render_entry(e: EntryView) -> Seq<char> {
    match e.kind {
        KindView::Field(es) => e.field + ": "@ + render_field_errors(es),
        KindView::Struct(inner) => render_nested(inner, e.field),
    }
}

/// Text of a failed validation: its top-level entries, one per line.
pub open spec fn render(entries: Seq<EntryView>) -> Seq<char> {
    join(entries.map_values(|e: EntryView| render_entry(e)), "\n"@)
}

pub proof fn lemma_join_push(items: Seq<Seq<char>>, x: Seq<char>, sep: Seq<char>)
    ensures
        join(items.push(x), sep) == if items.len() == 0 { x } else { join(items, sep) + sep + x },
{
    let p = items.push(x);
    assert(p.subrange(0, p.len() - 1) =~= items);
}

/// How failures read: a field's error with a message reads `field: message`,
/// a second error of the field follows after `, `; a nested field reads
/// under its dotted path; top-level entries are separated by line breaks.
pub proof fn lemma_render_shape(f: Seq<char>, g: Seq<char>, m1: Seq<char>, m2: Seq<char>, rest: Seq<EntryView>, e: EntryView)
    ensures
        render(seq![EntryView {
            field: f,
            kind: KindView::Field(seq![FieldErrorView { code: "c"@, message: Some(m1), params: Seq::empty() }]),
        }]) == f + ": "@ + m1,
        render(seq![EntryView {
            field: f,
            kind: KindView::Field(seq![
                FieldErrorView { code: "c"@, message: Some(m1), params: Seq::empty() },
                FieldErrorView { code: "c"@, message: Some(m2), params: Seq::empty() },
            ]),
        }]) == f + ": "@ + m1 + ", "@ + m2,
        render(seq![EntryView {
            field: f,
            kind: KindView::Struct(seq![EntryView {
                field: g,
                kind: KindView::Field(seq![FieldErrorView { code: "c"@, message: Some(m1), params: Seq::empty() }]),
            }]),
        }]) == f + "."@ + g + ": "@ + m1,
        rest.len() > 0 ==> render(rest.push(e)) == render(rest) + "\n"@ + render_entry(e),
{
    let one = seq![FieldErrorView { code: "c"@, message: Some(m1), params: Seq::empty() }];
    let two = seq![
        FieldErrorView { code: "c"@, message: Some(m1), params: Seq::empty() },
        FieldErrorView { code: "c"@, message: Some(m2), params: Seq::empty() },
    ];
    assert(one.map_values(|x: FieldErrorView| render_error(x)) =~= seq![m1]);
    assert(two.map_values(|x: FieldErrorView| render_error(x)) =~= seq![m1].push(m2));
    lemma_join_push(seq![m1], m2, ", "@);
    assert(seq![m1].push(m2).subrange(0, 1) =~= seq![m1]);
    let ef = EntryView { field: f, kind: KindView::Field(one) };
    assert(seq![ef].map_values(|x: EntryView| render_entry(x)) =~= seq![render_entry(ef)]);
    let ef2 = EntryView { field: f, kind: KindView::Field(two) };
    assert(seq![ef2].map_values(|x: EntryView| render_entry(x)) =~= seq![render_entry(ef2)]);
    let inner = seq![EntryView { field: g, kind: KindView::Field(one) }];
    let es = EntryView { field: f, kind: KindView::Struct(inner) };
    assert(seq![es].map_values(|x: EntryView| render_entry(x)) =~= seq![render_entry(es)]);
    assert(inner.subrange(0, 0) =~= Seq::<EntryView>::empty());
    assert(render_nested(Seq::<EntryView>::empty(), f) == Seq::<char>::empty());
    assert(render_field_errors(one) == m1);
    assert(inner[inner.len() - 1] == EntryView { field: g, kind: KindView::Field(one) });
    assert(render_nested(inner, f) == render_nested(inner.subrange(0, 0), f) + ((f + "."@ + g) + ": "@
        + render_field_errors(one)));
    assert(render_nested(inner, f) =~= f + "."@ + g + ": "@ + m1);
    if rest.len() > 0 {
        assert(rest.push(e).map_values(|x: EntryView| render_entry(x)) =~= rest.map_values(|x: EntryView| render_entry(x)).push(render_entry(e)));
        lemma_join_push(rest.map_values(|x: EntryView| render_entry(x)), render_entry(e), "\n"@);
    }
}

fn append_value(v: &ParamValue, out: &mut String)
    ensures
        final(out)@ == old(out)@ + render_value(v@),
{
    match v {
        ParamValue::Text(s) => {
            out.append("String(");
            let q = debug_text(s.as_str());
            out.append(q.as_str());
            out.append(")");
        },
        ParamValue::Number(n) => {
            out.append("Number(");
            let d = decimal_text(*n);
            out.append(d.as_str());
            out.append(")");
        },
    }
}

fn append_params(ps: &Vec<ErrorParam>, out: &mut String)
    ensures
        final(out)@ == old(out)@ + render_params(ps@.map_values(|p: ErrorParam| p@)),
{
    let ghost start = out@;
    let ghost views = ps@.map_values(|p: ErrorParam| p@);
    let ghost items = views.map_values(|p: (Seq<char>, ParamView)| render_param(p));
    out.append("{");
    let mut i: usize = 0;
    while i < ps.len()
        invariant
            i <= ps.len(),
            views == ps@.map_values(|p: ErrorParam| p@),
            items == views.map_values(|p: (Seq<char>, ParamView)| render_param(p)),
            out@ == start + "{"@ + join(items.subrange(0, i as int), ", "@),
        decreases ps.len() - i,
    {
        let ghost before = out@;
        if i > 0 {
            out.append(", ");
        }
        let p = &ps[i];
        let name = debug_text(p.name.as_str());
        out.append(name.as_str());
        out.append(": ");
        append_value(&p.value, out);
        proof {
            assert(items.subrange(0, i + 1) =~= items.subrange(0, i as int).push(items[i as int]));
            lemma_join_push(items.subrange(0, i as int), items[i as int], ", "@);
            assert(items[i as int] == render_param(ps@[i as int]@));
            assert(out@ =~= start + "{"@ + join(items.subrange(0, i + 1), ", "@));
        }
        i = i + 1;
    }
    out.append("}");
    proof {
        assert(items.subrange(0, ps.len() as int) =~= items);
    }
}

fn append_error(e: &FieldError, out: &mut String)
    ensures
        final(out)@ == old(out)@ + render_error(e@),
{
    match &e.message {
        Some(m) => {
            out.append(m.as_str());
        },
        None => {
            out.append("Validation error: ");
            out.append(e.code.as_str());
            out.append(" [");
            append_params(&e.params, out);
            out.append("]");
        },
    }
}

fn append_field_errors(es: &Vec<FieldError>, out: &mut String)
    ensures
        final(out)@ == old(out)@ + render_field_errors(es@.map_values(|e: FieldError| e@)),
{
    let ghost start = out@;
    let ghost views = es@.map_values(|e: FieldError| e@);
    let ghost items = views.map_values(|e: FieldErrorView| render_error(e));
    let mut i: usize = 0;
    while i < es.len()
        invariant
            i <= es.len(),
            views == es@.map_values(|e: FieldError| e@),
            items == views.map_values(|e: FieldErrorView| render_error(e)),
            out@ == start + join(items.subrange(0, i as int), ", "@),
        decreases es.len() - i,
    {
        if i > 0 {
            out.append(", ");
        }
        append_error(&es[i], out);
        proof {
            assert(items.subrange(0, i + 1) =~= items.subrange(0, i as int).push(items[i as int]));
            lemma_join_push(items.subrange(0, i as int), items[i as int], ", "@);
            assert(out@ =~= start + join(items.subrange(0, i + 1), ", "@));
        }
        i = i + 1;
    }
    proof {
        assert(items.subrange(0, es.len() as int) =~= items);
    }
}

fn dotted(path: &str, field: &str) -> (r: String)
    ensures
        r@ == path@ + "."@ + field@,
{
    let mut p = String::from_str(path);
    p.append(".");
    p.append(field);
    p
}

fn append_nested(entries: &Vec<ErrorEntry>, path: &str, out: &mut String)
    ensures
        final(out)@ == old(out)@ + render_nested(entries_view(entries@), path@),
    decreases entries@,
{
    let ghost start = out@;
    proof {
        lemma_entries_view(entries@);
    }
    let mut i: usize = 0;
    while i < entries.len()
        invariant
            i <= entries.len(),
            entries_view(entries@).len() == entries@.len(),
            forall|j: int| 0 <= j < entries@.len() ==> #[trigger] entries_view(entries@)[j] == entries@[j]@,
            out@ == start + render_nested(entries_view(entries@).subrange(0, i as int), path@),
        decreases entries.len() - i,
    {
        let e = &entries[i];
        let sub = dotted(path, e.field.as_str());
        let ghost before = out@;
        match &e.kind {
            ErrorsKind::Field(es) => {
                out.append(sub.as_str());
                out.append(": ");
                append_field_errors(es, out);
            },
            ErrorsKind::Struct(inner) => {
                proof {
                    assert(decreases_to!(entries@ => entries@[i as int]));
                }
                append_nested(&inner.entries, sub.as_str(), out);
            },
        }
        proof {
            let vs = entries_view(entries@);
            assert(vs.subrange(0, i + 1).subrange(0, i as int) =~= vs.subrange(0, i as int));
            assert(vs.subrange(0, i + 1)[i as int] == entries@[i as int]@);
            assert(out@ =~= start + render_nested(vs.subrange(0, i + 1), path@));
        }
        i = i + 1;
    }
    proof {
        assert(entries_view(entries@).subrange(0, entries.len() as int) =~= entries_view(entries@));
    }
}

fn append_entry(e: &ErrorEntry, out: &mut String)
    ensures
        final(out)@ == old(out)@ + render_entry(e@),
{
    match &e.kind {
        ErrorsKind::Field(es) => {
            out.append(e.field.as_str());
            out.append(": ");
            append_field_errors(es, out);
        },
        ErrorsKind::Struct(inner) => {
            append_nested(&inner.entries, e.field.as_str(), out);
        },
    }
}

impl ValidationErrors {
    /// No failure yet.
    pub fn new() -> (r: ValidationErrors)
        ensures
            r@ == Seq::<EntryView>::empty(),
    {
        ValidationErrors { entries: Vec::new() }
    }

    /// Whether nothing failed.
    pub fn is_empty(&self) -> (r: bool)
        ensures
            r == (self@.len() == 0),
    {
        proof {
            lemma_entries_view(self.entries@);
        }
        self.entries.len() == 0
    }

    /// Renders the failure as text: each top-level entry on a line of its own,
    /// each field as `path: error, error`, a nested field under its dotted path.
    pub fn display(&self) -> (r: String)
        ensures
            r@ == render(self@),
    {
        let ghost vs = self@;
        let ghost items = vs.map_values(|e: EntryView| render_entry(e));
        proof {
            lemma_entries_view(self.entries@);
        }
        let mut out = String::new();
        let mut i: usize = 0;
        while i < self.entries.len()
            invariant
                i <= self.entries.len(),
                vs == entries_view(self.entries@),
                vs.len() == self.entries@.len(),
                forall|j: int| 0 <= j < self.entries@.len() ==> #[trigger] vs[j] == self.entries@[j]@,
                items == vs.map_values(|e: EntryView| render_entry(e)),
                out@ == join(items.subrange(0, i as int), "\n"@),
            decreases self.entries.len() - i,
        {
            if i > 0 {
                out.append("\n");
            }
            append_entry(&self.entries[i], &mut out);
            proof {
                assert(items.subrange(0, i + 1) =~= items.subrange(0, i as int).push(items[i as int]));
                lemma_join_push(items.subrange(0, i as int), items[i as int], "\n"@);
                assert(out@ =~= join(items.subrange(0, i + 1), "\n"@));
            }
            i = i + 1;
        }
        proof {
            assert(items.subrange(0, self.entries.len() as int) =~= items);
        }
        out
    }
}

/// The failed entries of a validation, or none when it passed.
pub open spec fn has_field(es: Seq<EntryView>, field: Seq<char>) -> bool {
    exists|i: int| 0 <= i < es.len() && #[trigger] es[i].field == field
}

/// The entry for a field with its errors, or nothing when the field has none.
pub open spec fn field_entry(field: Seq<char>, errors: Seq<FieldErrorView>) -> Seq<EntryView> {
    if errors.len() == 0 {
        Seq::empty()
    } else {
        seq![EntryView { field, kind: KindView::Field(errors) }]
    }
}

/// The entry for a nested structure with its failed entries, or nothing when it passed.
pub open spec fn nested_entry(field: Seq<char>, inner: Seq<EntryView>) -> Seq<EntryView> {
    if inner.len() == 0 {
        Seq::empty()
    } else {
        seq![EntryView { field, kind: KindView::Struct(inner) }]
    }
}

/// Some entry for `field` holds a nested structure.
pub open spec fn has_nested(es: Seq<EntryView>, field: Seq<char>) -> bool {
    exists|i: int| 0 <= i < es.len() && #[trigger] es[i].field == field && es[i].kind is Struct
}

/// `i` is the position of the first entry for `field`.
pub open spec fn first_field_index(es: Seq<EntryView>, field: Seq<char>, i: int) -> bool {
    &&& 0 <= i < es.len()
    &&& es[i].field == field
    &&& forall|j: int| 0 <= j < i ==> #[trigger] es[j].field != field
}

/// The entries after errors of `field` are recorded: unchanged for no
/// errors; otherwise the errors follow those of the first entry for the
/// field, or, when there is none, a new entry holds them.
pub open spec fn with_field_errors(es: Seq<EntryView>, field: Seq<char>, errors: Seq<FieldErrorView>) -> Seq<EntryView> {
    if errors.len() == 0 {
        es
    } else if has_field(es, field) {
        let i = choose|i: int| first_field_index(es, field, i);
        match es[i].kind {
            KindView::Field(recorded) => es.update(i, EntryView { field, kind: KindView::Field(recorded + errors) }),
            KindView::Struct(_) => es,
        }
    } else {
        es.push(EntryView { field, kind: KindView::Field(errors) })
    }
}

/// An entry for one field does not name another.
pub proof fn lemma_field_entry_names(f: Seq<char>, errors: Seq<FieldErrorView>, g: Seq<char>)
    requires
        f != g,
    ensures
        !has_field(field_entry(f, errors), g),
        !has_field(Seq::<EntryView>::empty() + field_entry(f, errors), g),
{
    assert(Seq::<EntryView>::empty() + field_entry(f, errors) =~= field_entry(f, errors));
}

/// An entry for one nested structure does not name another field.
pub proof fn lemma_nested_entry_names(f: Seq<char>, inner: Seq<EntryView>, g: Seq<char>)
    requires
        f != g,
    ensures
        !has_field(nested_entry(f, inner), g),
        !has_field(Seq::<EntryView>::empty() + nested_entry(f, inner), g),
{
    assert(Seq::<EntryView>::empty() + nested_entry(f, inner) =~= nested_entry(f, inner));
}

/// Entries for two fields do not name a third.
pub proof fn lemma_two_entries_names(a: Seq<EntryView>, b: Seq<EntryView>, g: Seq<char>)
    requires
        !has_field(a, g),
        !has_field(b, g),
    ensures
        !has_field(a + b, g),
{
    assert forall|i: int| 0 <= i < (a + b).len() implies #[trigger] (a + b)[i].field != g by {
        if i < a.len() {
            assert((a + b)[i] == a[i]);
        } else {
            assert((a + b)[i] == b[i - a.len()]);
        }
    }
}

impl ValidationErrors {
    /// Whether an entry for `field` exists.
    pub fn contains_field(&self, field: &str) -> (r: bool)
        ensures
            r == has_field(self@, field@),
    {
        proof {
            lemma_entries_view(self.entries@);
        }
        let mut i: usize = 0;
        while i < self.entries.len()
            invariant
                i <= self.entries.len(),
                self@.len() == self.entries@.len(),
                forall|j: int| 0 <= j < self.entries@.len() ==> #[trigger] self@[j] == self.entries@[j]@,
                forall|j: int| 0 <= j < i ==> self@[j].field != field@,
            decreases self.entries.len() - i,
        {
            if same_text(self.entries[i].field.as_str(), field) {
                assert(self@[i as int].field == field@);
                return true;
            }
            i = i + 1;
        }
        false
    }

    /// The position of the first entry for `field`, if there is one.
    fn position(&self, field: &str) -> (r: Option<usize>)
        ensures
            match r {
                Some(i) => first_field_index(self@, field@, i as int),
                None => !has_field(self@, field@),
            },
    {
        proof {
            lemma_entries_view(self.entries@);
        }
        let mut i: usize = 0;
        while i < self.entries.len()
            invariant
                i <= self.entries.len(),
                self@.len() == self.entries@.len(),
                forall|j: int| 0 <= j < self.entries@.len() ==> #[trigger] self@[j] == self.entries@[j]@,
                forall|j: int| 0 <= j < i ==> self@[j].field != field@,
            decreases self.entries.len() - i,
        {
            if same_text(self.entries[i].field.as_str(), field) {
                assert(self@[i as int].field == field@);
                return Some(i);
            }
            i = i + 1;
        }
        None
    }

    /// Records errors of a field: they are added after those already
    /// recorded for the field, or under a new entry for it. Nothing changes
    /// when there are no errors.
    pub fn add_field(&mut self, field: &str, errors: Vec<FieldError>)
        requires
            errors@.len() > 0 ==> !has_nested(old(self)@, field@),
        ensures
            final(self)@ == with_field_errors(old(self)@, field@, errors@.map_values(|e: FieldError| e@)),
            !has_field(old(self)@, field@) ==> final(self)@ == old(self)@ + field_entry(
                field@,
                errors@.map_values(|e: FieldError| e@),
            ),
    {
        let ghost errs = errors@.map_values(|e: FieldError| e@);
        if errors.len() == 0 {
            assert(errs.len() == 0);
            assert(self@ =~= old(self)@ + field_entry(field@, errs));
            return;
        }
        match self.position(field) {
            None => {
                let ghost before = self.entries@;
                self.entries.push(ErrorEntry { field: String::from_str(field), kind: ErrorsKind::Field(errors) });
                proof {
                    let es = self.entries@;
                    assert(es.subrange(0, es.len() - 1) =~= before);
                    assert(entries_view(es) == entries_view(before).push(es[es.len() - 1]@));
                    assert(es[es.len() - 1]@ == EntryView { field: field@, kind: KindView::Field(errs) });
                    assert(self@ =~= old(self)@ + field_entry(field@, errs));
                }
            },
            Some(i) => {
                let ghost before = self.entries@;
                let ghost old_view = self@;
                proof {
                    lemma_entries_view(before);
                }
                let entry = self.entries.remove(i);
                let ErrorEntry { field: name, kind } = entry;
                match kind {
                    ErrorsKind::Field(mut recorded) => {
                        let ghost recorded_before = recorded@;
                        let mut more = errors;
                        recorded.append(&mut more);
                        let updated = ErrorEntry { field: name, kind: ErrorsKind::Field(recorded) };
                        proof {
                            assert(recorded@.map_values(|e: FieldError| e@) =~= recorded_before.map_values(
                                |e: FieldError| e@,
                            ) + errs);
                            assert(updated@ == EntryView {
                                field: field@,
                                kind: KindView::Field(recorded_before.map_values(|e: FieldError| e@) + errs),
                            });
                        }
                        let ghost updated_view = updated@;
                        self.entries.insert(i, updated);
                        proof {
                            assert(self.entries@ =~= before.update(i as int, self.entries@[i as int]));
                            lemma_entries_view(self.entries@);
                            assert(self@ =~= old_view.update(i as int, updated_view));
                            assert(first_field_index(old_view, field@, i as int));
                        }
                    },
                    ErrorsKind::Struct(b) => {
                        proof {
                            assert(old_view[i as int] == before[i as int]@);
                            assert(old_view[i as int].field == field@ && old_view[i as int].kind is Struct);
                            assert(has_nested(old_view, field@));
                        }
                        self.entries.insert(i, ErrorEntry { field: name, kind: ErrorsKind::Struct(b) });
                    },
                }
            },
        }
    }

    /// Records the failed validation of a nested structure under a field that
    /// has no entry yet; a passed one leaves the errors unchanged.
    pub fn add_nested(&mut self, field: &str, child: Result<(), ValidationErrors>)
        requires
            child is Err ==> !has_field(old(self)@, field@),
        ensures
            final(self)@ == old(self)@ + match child {
                Ok(()) => Seq::<EntryView>::empty(),
                Err(e) => seq![EntryView { field: field@, kind: KindView::Struct(e@) }],
            },
            match child {
                Ok(()) => true,
                Err(e) => e@.len() > 0 ==> final(self)@ == old(self)@ + nested_entry(field@, e@),
            },
    {
        match child {
            Ok(()) => {
                assert(self@ =~= old(self)@ + Seq::<EntryView>::empty());
            },
            Err(e) => {
                let ghost before = self.entries@;
                let ghost inner = e@;
                self.entries.push(ErrorEntry { field: String::from_str(field), kind: ErrorsKind::Struct(Box::new(e)) });
                proof {
                    let es = self.entries@;
                    assert(es.subrange(0, es.len() - 1) =~= before);
                    assert(entries_view(es) == entries_view(before).push(es[es.len() - 1]@));
                    assert(es[es.len() - 1]@ == EntryView { field: field@, kind: KindView::Struct(inner) });
                    assert(self@ =~= old(self)@ + seq![EntryView { field: field@, kind: KindView::Struct(inner) }]);
                }
            },
        }
    }

    /// Ends a validation: passed when nothing failed.
    pub fn into_result(self) -> (r: Result<(), ValidationErrors>)
        ensures
            match r {
                Ok(()) => self@.len() == 0,
                Err(e) => e@ == self@ && e@.len() > 0,
            },
    {
        if self.is_empty() {
            Ok(())
        } else {
            Err(self)
        }
    }
}

/// A configuration value that checks its own rules.
pub trait ConfigValidation {
    /// What fails when this value is checked, in the order of its fields;
    /// empty when every rule holds.
    spec fn validation_errors(&self) -> Seq<EntryView>;

    /// Checks every rule of this value and of the values nested in it.
    fn validate(&self) -> (r: Result<(), ValidationErrors>)
        ensures
            match r {
                Ok(()) => self.validation_errors().len() == 0,
                Err(e) => e@ == self.validation_errors() && e@.len() > 0,
            },
    ;
}

/// Whether two texts are equal.
pub fn same_text(a: &str, b: &str) -> (r: bool)
    ensures
        r == (a@ == b@),
{
    a.to_owned() == b.to_owned()
}

/// Calls `ValidateLength::validate_length` of the validator crate with a lower
/// bound only; for a string it counts characters, so the check is that the
/// text has at least `min` characters.
#[verifier::external_body]
fn length_at_least(s: &str, min: u64) -> (r: bool)
    ensures
        r == (s@.len() >= min),
{
    s.validate_length(Some(min), None, None)
}

/// Calls `ValidateRange::validate_range` of the validator crate with both
/// bounds inclusive; the check is `min <= v <= max`.
#[verifier::external_body]
fn within_range(v: u16, min: u16, max: u16) -> (r: bool)
    ensures
        r == (min <= v && v <= max),
{
    v.validate_range(Some(min), Some(max), None, None)
}

/// Whether the url crate parses a text as a URL (`Url::parse(..).is_ok()`).
pub uninterp spec fn parses_as_url(s: Seq<char>) -> bool;

/// Calls `ValidateUrl::validate_url` of the validator crate, which answers
/// whether `url::Url::parse` accepts the text; the answer is named.
#[verifier::external_body]
fn is_url(s: &str) -> (r: bool)
    ensures
        r == parses_as_url(s@),
{
    s.validate_url()
}

/// The error of a failed length rule with a lower bound.
pub open spec fn length_error_view(message: Option<Seq<char>>, min: u64, value: Seq<char>) -> FieldErrorView {
    FieldErrorView {
        code: "length"@,
        message,
        params: seq![("min"@, ParamView::Number(min)), ("value"@, ParamView::Text(value))],
    }
}

/// The error of a failed inclusive range rule.
pub open spec fn range_error_view(message: Option<Seq<char>>, min: u64, max: u64, value: u64) -> FieldErrorView {
    FieldErrorView {
        code: "range"@,
        message,
        params: seq![
            ("min"@, ParamView::Number(min)),
            ("max"@, ParamView::Number(max)),
            ("value"@, ParamView::Number(value)),
        ],
    }
}

/// The error of a failed URL rule.
pub open spec fn url_error_view(value: Seq<char>) -> FieldErrorView {
    FieldErrorView { code: "url"@, message: None, params: seq![("value"@, ParamView::Text(value))] }
}

/// The errors of a text field that must hold at least `min` characters.
pub open spec fn length_rule(message: Option<Seq<char>>, min: u64, value: Seq<char>) -> Seq<FieldErrorView> {
    if value.len() >= min {
        Seq::empty()
    } else {
        seq![length_error_view(message, min, value)]
    }
}

/// The errors of a number field that must lie in `min..=max`.
pub open spec fn range_rule(message: Option<Seq<char>>, min: u16, max: u16, value: u16) -> Seq<FieldErrorView> {
    if min <= value && value <= max {
        Seq::empty()
    } else {
        seq![range_error_view(message, min as u64, max as u64, value as u64)]
    }
}

/// The errors of a text field that must be a URL.
pub open spec fn url_rule(value: Seq<char>) -> Seq<FieldErrorView> {
    if parses_as_url(value) {
        Seq::empty()
    } else {
        seq![url_error_view(value)]
    }
}

fn text_param(name: &str, value: &str) -> (r: ErrorParam)
    ensures
        r@ == (name@, ParamView::Text(value@)),
{
    ErrorParam { name: String::from_str(name), value: ParamValue::Text(String::from_str(value)) }
}

fn number_param(name: &str, value: u64) -> (r: ErrorParam)
    ensures
        r@ == (name@, ParamView::Number(value)),
{
    ErrorParam { name: String::from_str(name), value: ParamValue::Number(value) }
}

fn optional_text(o: Option<&str>) -> (r: Option<String>)
    ensures
        option_text_view(r) == match o {
            Some(s) => Some(s@),
            None => None::<Seq<char>>,
        },
{
    match o {
        Some(s) => Some(String::from_str(s)),
        None => None,
    }
}

pub open spec fn option_str_view(o: Option<&str>) -> Option<Seq<char>> {
    match o {
        Some(s) => Some(s@),
        None => None,
    }
}

/// Checks that a text holds at least `min` characters.
pub fn check_length(message: Option<&str>, min: u64, value: &str) -> (r: Vec<FieldError>)
    ensures
        r@.map_values(|e: FieldError| e@) == length_rule(option_str_view(message), min, value@),
{
    let mut errors: Vec<FieldError> = Vec::new();
    if !length_at_least(value, min) {
        let mut params: Vec<ErrorParam> = Vec::new();
        params.push(number_param("min", min));
        params.push(text_param("value", value));
        let e = FieldError { code: String::from_str("length"), message: optional_text(message), params };
        proof {
            assert(e@.params =~= seq![("min"@, ParamView::Number(min)), ("value"@, ParamView::Text(value@))]);
        }
        errors.push(e);
    }
    proof {
        assert(errors@.map_values(|e: FieldError| e@) =~= length_rule(option_str_view(message), min, value@));
    }
    errors
}

/// Checks that a number lies in `min..=max`.
pub fn check_range(message: Option<&str>, min: u16, max: u16, value: u16) -> (r: Vec<FieldError>)
    ensures
        r@.map_values(|e: FieldError| e@) == range_rule(option_str_view(message), min, max, value),
{
    let mut errors: Vec<FieldError> = Vec::new();
    if !within_range(value, min, max) {
        let mut params: Vec<ErrorParam> = Vec::new();
        params.push(number_param("min", min as u64));
        params.push(number_param("max", max as u64));
        params.push(number_param("value", value as u64));
        let e = FieldError { code: String::from_str("range"), message: optional_text(message), params };
        proof {
            assert(e@.params =~= seq![
                ("min"@, ParamView::Number(min as u64)),
                ("max"@, ParamView::Number(max as u64)),
                ("value"@, ParamView::Number(value as u64)),
            ]);
        }
        errors.push(e);
    }
    proof {
        assert(errors@.map_values(|e: FieldError| e@) =~= range_rule(option_str_view(message), min, max, value));
    }
    errors
}

/// Checks that a text is a URL.
pub fn check_url(value: &str) -> (r: Vec<FieldError>)
    ensures
        r@.map_values(|e: FieldError| e@) == url_rule(value@),
{
    let mut errors: Vec<FieldError> = Vec::new();
    if !is_url(value) {
        let mut params: Vec<ErrorParam> = Vec::new();
        params.push(text_param("value", value));
        let e = FieldError { code: String::from_str("url"), message: None, params };
        proof {
            assert(e@.params =~= seq![("value"@, ParamView::Text(value@))]);
        }
        errors.push(e);
    }
    proof {
        assert(errors@.map_values(|e: FieldError| e@) =~= url_rule(value@));
    }
    errors
}

/// Records the errors of a field, if it has any (see `ValidationErrors::add_field`).
pub fn record_field(errors: &mut ValidationErrors, field: &str, field_errors: Vec<FieldError>)
    requires
        field_errors@.len() > 0 ==> !has_nested(old(errors)@, field@),
    ensures
        final(errors)@ == with_field_errors(old(errors)@, field@, field_errors@.map_values(|e: FieldError| e@)),
        !has_field(old(errors)@, field@) ==> final(errors)@ == old(errors)@ + field_entry(
            field@,
            field_errors@.map_values(|e: FieldError| e@),
        ),
{
    errors.add_field(field, field_errors);
}

} // verus!
