//! Resolving a body against the captured variables, the generators of fake
//! values and the named templates.
use crate::server::url::var::{UrlVar, UrlVarView, UrlVars};
use crate::specs::body::body::{Body, BodyView};
use crate::specs::body::dynamic::{Dynamic, DynamicValue, DynamicValueView};
use crate::specs::body::fake::{get_fake, is_fake_attr, is_generated_text};
use crate::specs::body::number::Number;
use crate::specs::body::value::{Value, ValueView};
use crate::specs::mock_config::Templates;
use crate::text::push_text;
use vstd::prelude::*;

verus! {

/// How many references to templates are followed one inside the other. A
/// reference beyond that is left unresolved, so that templates that refer to
/// each other in a circle cannot keep the resolution from ending.
pub const MAX_REF_DEPTH: usize = 32;

/// Something that was left empty while a body was resolved.
#[derive(Debug, PartialEq, Eq, Clone)]
pub enum Warning {
    /// No variable of this name was captured.
    UndefinedVar(String),
    /// The catalogue has no generator of this name.
    UnknownFake(String),
    /// No template of this name is defined.
    UndefinedTemplate(String),
    /// The template of this name is nested too deeply to be followed.
    RefTooDeep(String),
}

/// A `Warning` with its name as a sequence of characters.
pub enum WarningView {
    UndefinedVar(Seq<char>),
    UnknownFake(Seq<char>),
    UndefinedTemplate(Seq<char>),
    RefTooDeep(Seq<char>),
}

impl View for Warning {
    type V = WarningView;

    open spec fn view(&self) -> WarningView {
        match self {
            Warning::UndefinedVar(name) => WarningView::UndefinedVar(name@),
            Warning::UnknownFake(name) => WarningView::UnknownFake(name@),
            Warning::UndefinedTemplate(name) => WarningView::UndefinedTemplate(name@),
            Warning::RefTooDeep(name) => WarningView::RefTooDeep(name@),
        }
    }
}

/// The views of the warnings.
pub open spec fn warnings_view(warnings: Seq<Warning>) -> Seq<WarningView> {
    warnings.map_values(|w: Warning| w@)
}

/// A resolved body and what was left empty in it.
#[derive(Debug, PartialEq, Eq)]
pub struct Resolved {
    pub value: Value,
    pub warnings: Vec<Warning>,
}

/// The value that a captured variable resolves to when it stands alone: a
/// number stays a number, a string a string.
pub open spec fn native_value(var: UrlVarView) -> ValueView {
    match var {
        UrlVarView::String(s) => ValueView::String(s),
        UrlVarView::Number(n) => ValueView::Number(Number::PosInt(n as u64)),
    }
}

/// The view of what a generator handed out.
pub open spec fn generated_view(generated: Option<UrlVar>) -> Option<UrlVarView> {
    match generated {
        Some(value) => Some(value@),
        None => None,
    }
}

/// The text that stands for a generated value; nothing where none was
/// generated.
pub open spec fn generated_text(generated: Option<UrlVarView>) -> Seq<char> {
    match generated {
        Some(value) => value.text(),
        None => Seq::empty(),
    }
}

/// The text that a piece contributes to its string, given what the generator
/// handed out for it. An unbound variable, an unknown generator and a
/// reference contribute nothing.
pub open spec fn piece_text(
    piece: DynamicValueView,
    vars: Map<Seq<char>, UrlVarView>,
    generated: Option<UrlVarView>,
) -> Seq<char> {
    match piece {
        DynamicValueView::Static(text) => text,
        DynamicValueView::Var(name) => if vars.contains_key(name) {
            vars[name].text()
        } else {
            Seq::empty()
        },
        DynamicValueView::Fake(_) => generated_text(generated),
        DynamicValueView::Ref(_) => Seq::empty(),
    }
}

/// What a generator may have handed out for a piece: for a piece that names
/// a generator of the catalogue a string that this generator can hand out,
/// which is never empty; nothing for any other piece.
pub open spec fn may_generate(piece: DynamicValueView, generated: Option<UrlVarView>) -> bool {
    match piece {
        DynamicValueView::Fake(attr) => {
            &&& generated is Some <==> is_fake_attr(attr)
            &&& generated matches Some(value) ==> value matches UrlVarView::String(text)
                && is_generated_text(attr, text)
        },
        _ => generated is None,
    }
}

/// The texts of the first `n` pieces, one after the other.
pub open spec fn joined(
    pieces: Seq<DynamicValueView>,
    vars: Map<Seq<char>, UrlVarView>,
    generated: Seq<Option<UrlVarView>>,
    n: nat,
) -> Seq<char>
    decreases n,
{
    if n == 0 {
        Seq::empty()
    } else {
        joined(pieces, vars, generated, (n - 1) as nat) + piece_text(
            pieces[n - 1],
            vars,
            generated[n - 1],
        )
    }
}

/// Whether the piece is a reference that is followed: its template is
/// defined, and the depth is not used up.
pub open spec fn is_followed(
    piece: DynamicValueView,
    templates: Map<Seq<char>, BodyView>,
    depth: nat,
) -> bool {
    piece matches DynamicValueView::Ref(name) && templates.contains_key(name) && depth > 0
}

/// The place of the first reference from `from` on that is followed.
pub open spec fn followed_from(
    pieces: Seq<DynamicValueView>,
    templates: Map<Seq<char>, BodyView>,
    depth: nat,
    from: int,
) -> Option<int>
    decreases pieces.len() - from,
{
    if from < 0 || from >= pieces.len() {
        None
    } else if is_followed(pieces[from], templates, depth) {
        Some(from)
    } else {
        followed_from(pieces, templates, depth, from + 1)
    }
}

/// Whether the pieces are one variable that is bound.
pub open spec fn is_bound_var(pieces: Seq<DynamicValueView>, vars: Map<Seq<char>, UrlVarView>)
    -> bool {
    pieces.len() == 1 && pieces[0] is Var && vars.contains_key(pieces[0]->Var_0)
}

/// Whether `out` is a value that `body` may resolve to.
///
/// Everything but a string with placeholders is copied. A string that is one
/// bound variable resolves to the value of the variable. A string with a
/// reference that is followed resolves to what the template of the first
/// such reference resolves to, one level deeper. Any other string resolves
/// to the texts of its pieces, where a generator may hand out any string.
pub open spec fn resolves(
    body: BodyView,
    vars: Map<Seq<char>, UrlVarView>,
    templates: Map<Seq<char>, BodyView>,
    depth: nat,
    out: ValueView,
) -> bool
    decreases depth, body,
{
    match body {
        BodyView::Null => out == ValueView::Null,
        BodyView::Bool(b) => out == ValueView::Bool(b),
        BodyView::Number(n) => out == ValueView::Number(n),
        BodyView::String(s) => out == ValueView::String(s),
        BodyView::Sequence(items) => {
            &&& out matches ValueView::Sequence(outs)
            &&& outs.len() == items.len()
            &&& forall|i: int|
                0 <= i < items.len() ==> resolves(items[i], vars, templates, depth, #[trigger] outs[i])
        },
        BodyView::Mapping(entries) => {
            &&& out matches ValueView::Mapping(outs)
            &&& outs.len() == entries.len()
            &&& forall|i: int|
                0 <= i < entries.len() ==> {
                    &&& resolves(entries[i].0, vars, templates, depth, (#[trigger] outs[i]).0)
                    &&& resolves(entries[i].1, vars, templates, depth, outs[i].1)
                }
        },
        BodyView::Tagged(tag, inner) => {
            &&& out matches ValueView::Tagged(out_tag, out_inner)
            &&& out_tag == tag
            &&& resolves(*inner, vars, templates, depth, *out_inner)
        },
        BodyView::Dynamic(pieces) => {
            if is_bound_var(pieces, vars) {
                out == native_value(vars[pieces[0]->Var_0])
            } else {
                match followed_from(pieces, templates, depth, 0) {
                    Some(k) => {
                        &&& depth > 0
                        &&& pieces[k] is Ref
                        &&& resolves(
                            templates[pieces[k]->Ref_0],
                            vars,
                            templates,
                            (depth - 1) as nat,
                            out,
                        )
                    },
                    None => exists|generated: Seq<Option<UrlVarView>>|
                        {
                            &&& generated.len() == pieces.len()
                            &&& forall|i: int|
                                0 <= i < pieces.len() ==> may_generate(
                                    pieces[i],
                                    #[trigger] generated[i],
                                )
                            &&& out == ValueView::String(
                                joined(pieces, vars, generated, pieces.len()),
                            )
                        },
                }
            }
        },
    }
}

/// The warning that a piece gives rise to, if it is not followed.
pub open spec fn piece_warning(
    piece: DynamicValueView,
    vars: Map<Seq<char>, UrlVarView>,
    templates: Map<Seq<char>, BodyView>,
) -> Option<WarningView> {
    match piece {
        DynamicValueView::Static(_) => None,
        DynamicValueView::Var(name) => if vars.contains_key(name) {
            None
        } else {
            Some(WarningView::UndefinedVar(name))
        },
        DynamicValueView::Fake(attr) => if is_fake_attr(attr) {
            None
        } else {
            Some(WarningView::UnknownFake(attr))
        },
        DynamicValueView::Ref(name) => if templates.contains_key(name) {
            Some(WarningView::RefTooDeep(name))
        } else {
            Some(WarningView::UndefinedTemplate(name))
        },
    }
}

/// The warnings of the first `n` pieces, in order.
pub open spec fn pieces_warnings(
    pieces: Seq<DynamicValueView>,
    vars: Map<Seq<char>, UrlVarView>,
    templates: Map<Seq<char>, BodyView>,
    n: nat,
) -> Seq<WarningView>
    decreases n,
{
    if n == 0 {
        Seq::empty()
    } else {
        let before = pieces_warnings(pieces, vars, templates, (n - 1) as nat);
        match piece_warning(pieces[n - 1], vars, templates) {
            Some(w) => before.push(w),
            None => before,
        }
    }
}

/// The warnings of resolving `body`, in the order in which the pieces are
/// met: those of a sequence item by item, those of a mapping entry by entry
/// with the key before the value, those of a string with placeholders piece
/// by piece up to the first reference that is followed, and then those of
/// its template.
pub open spec fn warnings_of(
    body: BodyView,
    vars: Map<Seq<char>, UrlVarView>,
    templates: Map<Seq<char>, BodyView>,
    depth: nat,
) -> Seq<WarningView>
    decreases depth, body, 0nat,
{
    match body {
        BodyView::Sequence(items) => items_warnings(items, vars, templates, depth, items.len()),
        BodyView::Mapping(entries) => entries_warnings(
            entries,
            vars,
            templates,
            depth,
            entries.len(),
        ),
        BodyView::Tagged(tag, inner) => warnings_of(*inner, vars, templates, depth),
        BodyView::Dynamic(pieces) => {
            if is_bound_var(pieces, vars) {
                Seq::empty()
            } else {
                match followed_from(pieces, templates, depth, 0) {
                    Some(k) => {
                        if depth > 0 && 0 <= k && pieces[k] is Ref {
                            pieces_warnings(pieces, vars, templates, k as nat) + warnings_of(
                                templates[pieces[k]->Ref_0],
                                vars,
                                templates,
                                (depth - 1) as nat,
                            )
                        } else {
                            Seq::empty()
                        }
                    },
                    None => pieces_warnings(pieces, vars, templates, pieces.len()),
                }
            }
        },
        _ => Seq::empty(),
    }
}

/// The warnings of the first `n` items of a sequence.
pub open spec fn items_warnings(
    items: Seq<BodyView>,
    vars: Map<Seq<char>, UrlVarView>,
    templates: Map<Seq<char>, BodyView>,
    depth: nat,
    n: nat,
) -> Seq<WarningView>
    decreases depth, items, n,
{
    if n == 0 || n > items.len() {
        Seq::empty()
    } else {
        items_warnings(items, vars, templates, depth, (n - 1) as nat) + warnings_of(
            items[n - 1],
            vars,
            templates,
            depth,
        )
    }
}

/// The warnings of the first `n` entries of a mapping.
pub open spec fn entries_warnings(
    entries: Seq<(BodyView, BodyView)>,
    vars: Map<Seq<char>, UrlVarView>,
    templates: Map<Seq<char>, BodyView>,
    depth: nat,
    n: nat,
) -> Seq<WarningView>
    decreases depth, entries, n,
{
    if n == 0 || n > entries.len() {
        Seq::empty()
    } else {
        entries_warnings(entries, vars, templates, depth, (n - 1) as nat) + warnings_of(
            entries[n - 1].0,
            vars,
            templates,
            depth,
        ) + warnings_of(entries[n - 1].1, vars, templates, depth)
    }
}

pub proof fn lemma_followed_from_found(
    pieces: Seq<DynamicValueView>,
    templates: Map<Seq<char>, BodyView>,
    depth: nat,
    from: int,
)
    requires
        0 <= from,
    ensures
        match followed_from(pieces, templates, depth, from) {
            Some(k) => from <= k < pieces.len() && is_followed(pieces[k], templates, depth)
                && forall|j: int|
                from <= j < k ==> !is_followed(#[trigger] pieces[j], templates, depth),
            None => forall|j: int|
                from <= j < pieces.len() ==> !is_followed(#[trigger] pieces[j], templates, depth),
        },
    decreases pieces.len() - from,
{
    if from < pieces.len() && !is_followed(pieces[from], templates, depth) {
        lemma_followed_from_found(pieces, templates, depth, from + 1);
    }
}

/// The texts of the first `n` pieces depend on what was generated for them
/// only.
pub proof fn lemma_joined_prefix(
    pieces: Seq<DynamicValueView>,
    vars: Map<Seq<char>, UrlVarView>,
    a: Seq<Option<UrlVarView>>,
    b: Seq<Option<UrlVarView>>,
    n: nat,
)
    requires
        n <= a.len(),
        n <= b.len(),
        forall|i: int| 0 <= i < n ==> a[i] == b[i],
    ensures
        joined(pieces, vars, a, n) == joined(pieces, vars, b, n),
    decreases n,
{
    if n > 0 {
        lemma_joined_prefix(pieces, vars, a, b, (n - 1) as nat);
    }
}

impl DynamicValue {
    /// The text that the piece contributes to its string, given what the
    /// generator handed out for it.
    pub fn text(&self, vars: &UrlVars, generated: &Option<UrlVar>) -> (text: String)
        ensures
            text@ == piece_text(self@, vars@, generated_view(*generated)),
    {
        match self {
            DynamicValue::Static(text) => text.clone(),
            DynamicValue::Var(name) => match vars.get(name.as_str()) {
                Some(value) => value.to_string(),
                None => String::new(),
            },
            DynamicValue::Fake(_) => match generated {
                Some(value) => value.to_string(),
                None => String::new(),
            },
            DynamicValue::Ref(_) => String::new(),
        }
    }

    /// The warning that the piece gives rise to, if it is not followed.
    /// `known` says whether the generator that the piece names exists.
    fn warning(&self, vars: &UrlVars, templates: &Templates, known: bool) -> (r: Option<
        Warning,
    >)
        requires
            self@ matches DynamicValueView::Fake(attr) ==> known == is_fake_attr(attr),
        ensures
            match r {
                Some(w) => piece_warning(self@, vars@, templates@) == Some(w@),
                None => piece_warning(self@, vars@, templates@) is None,
            },
    {
        match self {
            DynamicValue::Static(_) => None,
            DynamicValue::Var(name) => match vars.get(name.as_str()) {
                Some(_) => None,
                None => Some(Warning::UndefinedVar(name.clone())),
            },
            DynamicValue::Fake(attr) => if known {
                None
            } else {
                Some(Warning::UnknownFake(attr.clone()))
            },
            DynamicValue::Ref(name) => match templates.get(name.as_str()) {
                Some(_) => Some(Warning::RefTooDeep(name.clone())),
                None => Some(Warning::UndefinedTemplate(name.clone())),
            },
        }
    }
}

impl UrlVar {
    /// The value that the variable resolves to when it stands alone.
    pub fn to_value(&self) -> (value: Value)
        ensures
            value@ == native_value(self@),
    {
        match self {
            UrlVar::String(s) => Value::String(s.clone()),
            UrlVar::Number(n) => Value::Number(Number::from_u32(*n)),
        }
    }
}

impl Dynamic {
    /// Resolves the string against the variables and the templates, and
    /// says what was left empty.
    pub fn resolve(&self, vars: &UrlVars, templates: &Templates) -> (r: Resolved)
        ensures
            resolves(BodyView::Dynamic(self@), vars@, templates@, MAX_REF_DEPTH as nat, r.value@),
            warnings_view(r.warnings@) == warnings_of(
                BodyView::Dynamic(self@),
                vars@,
                templates@,
                MAX_REF_DEPTH as nat,
            ),
    {
        let mut warnings: Vec<Warning> = Vec::new();
        let value = self.resolve_within(vars, templates, MAX_REF_DEPTH, &mut warnings);
        assert(warnings_view(warnings@) =~= warnings_of(
            BodyView::Dynamic(self@),
            vars@,
            templates@,
            MAX_REF_DEPTH as nat,
        ));
        Resolved { value, warnings }
    }

    /// Resolves the string, following references at most `depth` deep, and
    /// appends what was left empty to `warnings`.
    pub fn resolve_within(
        &self,
        vars: &UrlVars,
        templates: &Templates,
        depth: usize,
        warnings: &mut Vec<Warning>,
    ) -> (value: Value)
        ensures
            resolves(BodyView::Dynamic(self@), vars@, templates@, depth as nat, value@),
            warnings_view(final(warnings)@) == warnings_view(old(warnings)@) + warnings_of(
                BodyView::Dynamic(self@),
                vars@,
                templates@,
                depth as nat,
            ),
        decreases depth, 0nat, self,
    {
        let ghost pieces = self@;
        let ghost before = warnings_view(warnings@);
        if self.values.len() == 1 {
            match &self.values[0] {
                DynamicValue::Var(name) => {
                    match vars.get(name.as_str()) {
                        Some(var) => {
                            assert(is_bound_var(pieces, vars@));
                            assert(before + Seq::<WarningView>::empty() =~= before);
                            return var.to_value();
                        },
                        None => {},
                    }
                },
                _ => {},
            }
        }
        assert(!is_bound_var(pieces, vars@));
        let mut res = String::new();
        let ghost mut generated: Seq<Option<UrlVarView>> = Seq::empty();
        let mut i: usize = 0;
        assert(before + pieces_warnings(pieces, vars@, templates@, 0) =~= before);
        while i < self.values.len()
            invariant
                i <= self.values.len(),
                pieces == self@,
                before == warnings_view(old(warnings)@),
                !is_bound_var(pieces, vars@),
                generated.len() == i,
                forall|j: int| 0 <= j < i ==> may_generate(pieces[j], #[trigger] generated[j]),
                forall|j: int|
                    0 <= j < i ==> !is_followed(#[trigger] pieces[j], templates@, depth as nat),
                res@ == joined(pieces, vars@, generated, i as nat),
                warnings_view(warnings@) == before + pieces_warnings(
                    pieces,
                    vars@,
                    templates@,
                    i as nat,
                ),
            decreases self.values.len() - i,
        {
            let piece = &self.values[i];
            assert(pieces[i as int] == piece@);
            let ghost so_far = warnings_view(warnings@);
            match piece {
                DynamicValue::Ref(name) => {
                    if depth > 0 {
                        match templates.get(name.as_str()) {
                            Some(body) => {
                                proof {
                                    assert(is_followed(pieces[i as int], templates@, depth as nat));
                                    lemma_followed_from_found(pieces, templates@, depth as nat, 0);
                                }
                                let value = body.resolve_within(
                                    vars,
                                    templates,
                                    depth - 1,
                                    warnings,
                                );
                                proof {
                                    let tail = warnings_of(
                                        templates@[name@],
                                        vars@,
                                        templates@,
                                        (depth - 1) as nat,
                                    );
                                    assert(so_far + tail =~= before + (pieces_warnings(
                                        pieces,
                                        vars@,
                                        templates@,
                                        i as nat,
                                    ) + tail));
                                }
                                return value;
                            },
                            None => {},
                        }
                    }
                },
                _ => {},
            }
            assert(!is_followed(pieces[i as int], templates@, depth as nat));
            let made: Option<UrlVar> = match piece {
                DynamicValue::Fake(attr) => get_fake(attr.as_str()),
                _ => None,
            };
            let ghost made_view = generated_view(made);
            let text = piece.text(vars, &made);
            push_text(&mut res, text.as_str());
            match piece.warning(vars, templates, made.is_some()) {
                Some(w) => {
                    warnings.push(w);
                    assert(warnings_view(warnings@) =~= so_far.push(w@));
                },
                None => {},
            }
            proof {
                let longer = generated.push(made_view);
                lemma_joined_prefix(pieces, vars@, generated, longer, i as nat);
                generated = longer;
                assert(warnings_view(warnings@) =~= before + pieces_warnings(
                    pieces,
                    vars@,
                    templates@,
                    (i + 1) as nat,
                ));
            }
            i += 1;
        }
        proof {
            lemma_followed_from_found(pieces, templates@, depth as nat, 0);
        }
        Value::String(res)
    }
}

impl Body {
    /// Resolves the body against the variables and the templates, and says
    /// what was left empty.
    pub fn resolve(&self, vars: &UrlVars, templates: &Templates) -> (r: Resolved)
        ensures
            resolves(self@, vars@, templates@, MAX_REF_DEPTH as nat, r.value@),
            warnings_view(r.warnings@) == warnings_of(
                self@,
                vars@,
                templates@,
                MAX_REF_DEPTH as nat,
            ),
    {
        let mut warnings: Vec<Warning> = Vec::new();
        let value = self.resolve_within(vars, templates, MAX_REF_DEPTH, &mut warnings);
        assert(warnings_view(warnings@) =~= warnings_of(
            self@,
            vars@,
            templates@,
            MAX_REF_DEPTH as nat,
        ));
        Resolved { value, warnings }
    }

    /// Resolves the body, following references at most `depth` deep, and
    /// appends what was left empty to `warnings`.
    pub fn resolve_within(
        &self,
        vars: &UrlVars,
        templates: &Templates,
        depth: usize,
        warnings: &mut Vec<Warning>,
    ) -> (value: Value)
        ensures
            resolves(self@, vars@, templates@, depth as nat, value@),
            warnings_view(final(warnings)@) == warnings_view(old(warnings)@) + warnings_of(
                self@,
                vars@,
                templates@,
                depth as nat,
            ),
        decreases depth, 1nat, self,
    {
        let ghost before = warnings_view(warnings@);
        assert(before + Seq::<WarningView>::empty() =~= before);
        match self {
            Body::Null => Value::Null,
            Body::Bool(b) => Value::Bool(*b),
            Body::Number(n) => Value::Number(*n),
            Body::String(s) => Value::String(s.clone()),
            Body::Sequence(items) => {
                let ghost views = self@->Sequence_0;
                let mut outs: Vec<Value> = Vec::new();
                let mut i: usize = 0;
                while i < items.len()
                    invariant
                        i <= items.len(),
                        self@ == BodyView::Sequence(views),
                        *self == Body::Sequence(*items),
                        views.len() == items.len(),
                        outs.len() == i,
                        before == warnings_view(old(warnings)@),
                        forall|j: int|
                            0 <= j < i ==> resolves(
                                views[j],
                                vars@,
                                templates@,
                                depth as nat,
                                (#[trigger] outs[j])@,
                            ),
                        warnings_view(warnings@) == before + items_warnings(
                            views,
                            vars@,
                            templates@,
                            depth as nat,
                            i as nat,
                        ),
                    decreases items.len() - i,
                {
                    assert(views[i as int] == items[i as int]@);
                    let ghost so_far = warnings_view(warnings@);
                    let out = items[i].resolve_within(vars, templates, depth, warnings);
                    outs.push(out);
                    proof {
                        let added = warnings_of(views[i as int], vars@, templates@, depth as nat);
                        assert(so_far + added =~= before + (items_warnings(
                            views,
                            vars@,
                            templates@,
                            depth as nat,
                            i as nat,
                        ) + added));
                    }
                    i += 1;
                }
                let value = Value::Sequence(outs);
                proof {
                    let out_views = value@->Sequence_0;
                    assert forall|j: int| 0 <= j < views.len() implies resolves(
                        views[j],
                        vars@,
                        templates@,
                        depth as nat,
                        #[trigger] out_views[j],
                    ) by {
                        assert(out_views[j] == outs[j]@);
                    }
                }
                value
            },
            Body::Mapping(mapping) => {
                let ghost views = self@->Mapping_0;
                let mut outs: Vec<(Value, Value)> = Vec::new();
                let n = mapping.len();
                let mut i: usize = 0;
                while i < n
                    invariant
                        i <= n,
                        self@ == BodyView::Mapping(views),
                        *self == Body::Mapping(*mapping),
                        views == mapping@,
                        views.len() == n,
                        outs.len() == i,
                        before == warnings_view(old(warnings)@),
                        forall|j: int|
                            0 <= j < i ==> {
                                &&& resolves(
                                    views[j].0,
                                    vars@,
                                    templates@,
                                    depth as nat,
                                    (#[trigger] outs[j]).0@,
                                )
                                &&& resolves(
                                    views[j].1,
                                    vars@,
                                    templates@,
                                    depth as nat,
                                    outs[j].1@,
                                )
                            },
                        warnings_view(warnings@) == before + entries_warnings(
                            views,
                            vars@,
                            templates@,
                            depth as nat,
                            i as nat,
                        ),
                    decreases n - i,
                {
                    let ghost so_far = warnings_view(warnings@);
                    let (k, v) = mapping.entry(i);
                    let key = k.resolve_within(vars, templates, depth, warnings);
                    let val = v.resolve_within(vars, templates, depth, warnings);
                    outs.push((key, val));
                    proof {
                        let of_key = warnings_of(views[i as int].0, vars@, templates@, depth as nat);
                        let of_val = warnings_of(views[i as int].1, vars@, templates@, depth as nat);
                        assert(so_far + of_key + of_val =~= before + (entries_warnings(
                            views,
                            vars@,
                            templates@,
                            depth as nat,
                            i as nat,
                        ) + of_key + of_val));
                    }
                    i += 1;
                }
                let value = Value::Mapping(outs);
                proof {
                    let out_views = value@->Mapping_0;
                    assert forall|j: int| 0 <= j < views.len() implies {
                        &&& resolves(
                            views[j].0,
                            vars@,
                            templates@,
                            depth as nat,
                            (#[trigger] out_views[j]).0,
                        )
                        &&& resolves(views[j].1, vars@, templates@, depth as nat, out_views[j].1)
                    } by {
                        assert(out_views[j] == (outs[j].0@, outs[j].1@));
                    }
                }
                value
            },
            Body::Tagged(tagged) => {
                let inner = tagged.value.resolve_within(vars, templates, depth, warnings);
                Value::Tagged(tagged.tag.clone(), Box::new(inner))
            },
            Body::Dynamic(dynamic) => dynamic.resolve_within(vars, templates, depth, warnings),
        }
    }
}

/// Whether the body holds a piece that names a generator of the catalogue.
pub open spec fn names_generator(body: BodyView) -> bool
    decreases body,
{
    match body {
        BodyView::Sequence(items) => exists|i: int|
            0 <= i < items.len() && names_generator(#[trigger] items[i]),
        BodyView::Mapping(entries) => exists|i: int|
            0 <= i < entries.len() && (names_generator((#[trigger] entries[i]).0)
                || names_generator(entries[i].1)),
        BodyView::Tagged(_, inner) => names_generator(*inner),
        BodyView::Dynamic(pieces) => exists|i: int|
            0 <= i < pieces.len() && (#[trigger] pieces[i]) is Fake && is_fake_attr(
                pieces[i]->Fake_0,
            ),
        _ => false,
    }
}

/// Where neither the body nor a template names a generator, the body
/// resolves to one value only.
pub proof fn resolution_is_determined(
    body: BodyView,
    vars: Map<Seq<char>, UrlVarView>,
    templates: Map<Seq<char>, BodyView>,
    depth: nat,
    a: ValueView,
    b: ValueView,
)
    requires
        resolves(body, vars, templates, depth, a),
        resolves(body, vars, templates, depth, b),
        !names_generator(body),
        forall|name: Seq<char>|
            templates.contains_key(name) ==> !names_generator(#[trigger] templates[name]),
    ensures
        a == b,
    decreases depth, body,
{
    match body {
        BodyView::Sequence(items) => {
            let xs = a->Sequence_0;
            let ys = b->Sequence_0;
            assert forall|i: int| 0 <= i < items.len() implies xs[i] == ys[i] by {
                assert(!names_generator(items[i]));
                resolution_is_determined(items[i], vars, templates, depth, xs[i], ys[i]);
            }
            assert(xs =~= ys);
        },
        BodyView::Mapping(entries) => {
            let xs = a->Mapping_0;
            let ys = b->Mapping_0;
            assert forall|i: int| 0 <= i < entries.len() implies xs[i] == ys[i] by {
                assert(!names_generator(entries[i].0) && !names_generator(entries[i].1));
                resolution_is_determined(entries[i].0, vars, templates, depth, xs[i].0, ys[i].0);
                resolution_is_determined(entries[i].1, vars, templates, depth, xs[i].1, ys[i].1);
            }
            assert(xs =~= ys);
        },
        BodyView::Tagged(tag, inner) => {
            resolution_is_determined(*inner, vars, templates, depth, *a->Tagged_1, *b->Tagged_1);
        },
        BodyView::Dynamic(pieces) => {
            if is_bound_var(pieces, vars) {
            } else {
                match followed_from(pieces, templates, depth, 0) {
                    Some(k) => {
                        lemma_followed_from_found(pieces, templates, depth, 0);
                        resolution_is_determined(
                            templates[pieces[k]->Ref_0],
                            vars,
                            templates,
                            (depth - 1) as nat,
                            a,
                            b,
                        );
                    },
                    None => {
                        let ga = choose|generated: Seq<Option<UrlVarView>>|
                            {
                                &&& generated.len() == pieces.len()
                                &&& forall|i: int|
                                    0 <= i < pieces.len() ==> may_generate(
                                        pieces[i],
                                        #[trigger] generated[i],
                                    )
                                &&& a == ValueView::String(
                                    joined(pieces, vars, generated, pieces.len()),
                                )
                            };
                        let gb = choose|generated: Seq<Option<UrlVarView>>|
                            {
                                &&& generated.len() == pieces.len()
                                &&& forall|i: int|
                                    0 <= i < pieces.len() ==> may_generate(
                                        pieces[i],
                                        #[trigger] generated[i],
                                    )
                                &&& b == ValueView::String(
                                    joined(pieces, vars, generated, pieces.len()),
                                )
                            };
                        assert forall|i: int| 0 <= i < pieces.len() implies ga[i] == gb[i] by {
                            assert(may_generate(pieces[i], ga[i]));
                            assert(may_generate(pieces[i], gb[i]));
                            assert(!(pieces[i] is Fake && is_fake_attr(pieces[i]->Fake_0)));
                        }
                        lemma_joined_prefix(pieces, vars, ga, gb, pieces.len());
                    },
                }
            }
        },
        _ => {},
    }
}

/// A piece that names a generator of the catalogue contributes a text that
/// is not empty, whatever the generator hands out.
pub proof fn generated_piece_is_not_empty(
    attr: Seq<char>,
    vars: Map<Seq<char>, UrlVarView>,
    generated: Option<UrlVarView>,
)
    requires
        is_fake_attr(attr),
        may_generate(DynamicValueView::Fake(attr), generated),
    ensures
        piece_text(DynamicValueView::Fake(attr), vars, generated).len() > 0,
{
}

/// A variable that is not bound contributes nothing to its string and gives
/// rise to a warning: a string that is made of such a variable alone
/// resolves to the empty string.
pub proof fn unbound_variable_is_empty_and_warns(
    name: Seq<char>,
    vars: Map<Seq<char>, UrlVarView>,
    templates: Map<Seq<char>, BodyView>,
    depth: nat,
    generated: Option<UrlVarView>,
    out: ValueView,
)
    requires
        !vars.contains_key(name),
        resolves(BodyView::Dynamic(seq![DynamicValueView::Var(name)]), vars, templates, depth, out),
    ensures
        piece_text(DynamicValueView::Var(name), vars, generated) == Seq::<char>::empty(),
        piece_warning(DynamicValueView::Var(name), vars, templates) == Some(
            WarningView::UndefinedVar(name),
        ),
        out == ValueView::String(Seq::empty()),
        warnings_of(BodyView::Dynamic(seq![DynamicValueView::Var(name)]), vars, templates, depth)
            == seq![WarningView::UndefinedVar(name)],
{
    let pieces = seq![DynamicValueView::Var(name)];
    assert(pieces[0] == DynamicValueView::Var(name));
    assert(!is_bound_var(pieces, vars));
    lemma_followed_from_found(pieces, templates, depth, 0);
    assert(followed_from(pieces, templates, depth, 0) is None);
    let g = choose|generated: Seq<Option<UrlVarView>>|
        {
            &&& generated.len() == pieces.len()
            &&& forall|i: int|
                0 <= i < pieces.len() ==> may_generate(pieces[i], #[trigger] generated[i])
            &&& out == ValueView::String(joined(pieces, vars, generated, pieces.len()))
        };
    assert(joined(pieces, vars, g, 0) == Seq::<char>::empty());
    assert(joined(pieces, vars, g, 1) =~= Seq::<char>::empty());
    assert(pieces_warnings(pieces, vars, templates, 0) == Seq::<WarningView>::empty());
    assert(pieces_warnings(pieces, vars, templates, 1) =~= seq![WarningView::UndefinedVar(name)]);
}

} // verus!
