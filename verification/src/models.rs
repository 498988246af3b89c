//! The overlays that models are chosen in.
use vstd::prelude::*;
use crate::chrome;
use crate::numbers;
use crate::numbers::format_token_count;
use crate::overlay;
use crate::overlay::{select_list_visible_bounds, ItemView, OverlaySelection, SelectItem, SelectionView};
use crate::pieces;
use crate::pieces::{append_rule_line, push_rows, Piece, PieceView};
use crate::screen;
use crate::screen::{
    fit_line, style_brand, style_hint, style_success, style_warning, truncate_to_width,
    visible_width,
};
use crate::session::ModelInfo;
use crate::settings;
use crate::text;
use crate::text::{before, cat2, cat3, cat4, cat5, copy_text, decimal_text, same};

verus! {

broadcast use {crate::text::group_texts, crate::pieces::group_pieces};

/// A model, as a mathematical value.
pub struct ModelView {
    pub provider: Seq<char>,
    pub id: Seq<char>,
    pub name: Seq<char>,
    pub reasoning: bool,
    pub context_window: nat,
}

/// A model, as a mathematical value.
pub open spec fn model_view(m: ModelInfo) -> ModelView {
    ModelView {
        provider: m.provider@,
        id: m.id@,
        name: m.name@,
        reasoning: m.reasoning,
        context_window: m.context_window as nat,
    }
}

/// Models, as mathematical values.
pub open spec fn model_views(models: Seq<ModelInfo>) -> Seq<ModelView> {
    Seq::new(models.len(), |i: int| model_view(models[i]))
}

/// An optional model, as a mathematical value.
pub open spec fn opt_model(model: Option<ModelInfo>) -> Option<ModelView> {
    match model {
        Some(m) => Some(model_view(m)),
        None => None,
    }
}

/// A copy of a model.
pub fn copy_model(m: &ModelInfo) -> (r: ModelInfo)
    ensures
        model_view(r) == model_view(*m),
{
    ModelInfo {
        provider: copy_text(m.provider.as_str()),
        id: copy_text(m.id.as_str()),
        name: copy_text(m.name.as_str()),
        reasoning: m.reasoning,
        context_window: m.context_window,
    }
}

/// The provider and the identifier of a model.
pub open spec fn full_id(m: ModelView) -> Seq<char> {
    m.provider + "/"@ + m.id
}

/// The provider and the identifier of a model.
pub fn model_full_id(m: &ModelInfo) -> (r: String)
    ensures
        r@ == full_id(model_view(*m)),
{
    cat3(m.provider.as_str(), "/", m.id.as_str())
}

/// Whether a model is the current one.
pub open spec fn is_current(m: ModelView, current: Option<ModelView>) -> bool {
    match current {
        Some(c) => c.provider == m.provider && c.id == m.id,
        None => false,
    }
}

fn current(m: &ModelInfo, current_model: &Option<ModelInfo>) -> (r: bool)
    ensures
        r == is_current(model_view(*m), opt_model(*current_model)),
{
    match current_model {
        Some(c) => same(c.provider.as_str(), m.provider.as_str()) && same(
            c.id.as_str(),
            m.id.as_str(),
        ),
        None => false,
    }
}

/// Whether a model stands before another: the current one first, then by provider, then by
/// identifier.
pub open spec fn stands_before(a: ModelView, b: ModelView, current: Option<ModelView>) -> bool {
    if is_current(a, current) != is_current(b, current) {
        is_current(a, current)
    } else if a.provider != b.provider {
        text::text_less(a.provider, b.provider)
    } else {
        text::text_less(a.id, b.id)
    }
}

fn less(a: &ModelInfo, b: &ModelInfo, current_model: &Option<ModelInfo>) -> (r: bool)
    ensures
        r == stands_before(model_view(*a), model_view(*b), opt_model(*current_model)),
{
    let a_current = current(a, current_model);
    let b_current = current(b, current_model);
    if a_current != b_current {
        return a_current;
    }
    if !same(a.provider.as_str(), b.provider.as_str()) {
        return before(a.provider.as_str(), b.provider.as_str());
    }
    before(a.id.as_str(), b.id.as_str())
}

/// A model put in its place among models that are in order, behind those that count as equal.
pub open spec fn placed(sorted: Seq<ModelView>, m: ModelView, current: Option<ModelView>) -> Seq<
    ModelView,
>
    decreases sorted.len(),
{
    if sorted.len() == 0 || !stands_before(m, sorted.last(), current) {
        sorted.push(m)
    } else {
        placed(sorted.drop_last(), m, current).push(sorted.last())
    }
}

/// Models in order; those that count as equal keep the order they had.
pub open spec fn in_order(models: Seq<ModelView>, current: Option<ModelView>) -> Seq<ModelView>
    decreases models.len(),
{
    if models.len() == 0 {
        Seq::empty()
    } else {
        placed(in_order(models.drop_last(), current), models.last(), current)
    }
}

proof fn placed_is_insert(sorted: Seq<ModelView>, m: ModelView, current: Option<ModelView>, k: int)
    requires
        0 <= k <= sorted.len(),
        forall|j: int| k <= j < sorted.len() ==> stands_before(m, #[trigger] sorted[j], current),
        k == 0 || !stands_before(m, sorted[k - 1], current),
    ensures
        placed(sorted, m, current) == sorted.insert(k, m),
    decreases sorted.len(),
{
    if k == sorted.len() {
        assert(sorted.insert(k, m) =~= sorted.push(m));
    } else {
        let shorter = sorted.drop_last();
        assert forall|j: int| k <= j < shorter.len() implies stands_before(
            m,
            #[trigger] shorter[j],
            current,
        ) by {
            assert(shorter[j] == sorted[j]);
        }
        assert(stands_before(m, sorted[sorted.len() - 1], current));
        placed_is_insert(shorter, m, current, k);
        assert(sorted.insert(k, m) =~= shorter.insert(k, m).push(sorted.last()));
    }
}

/// Models in order: the current one first, then by provider, then by identifier.
pub fn sort_model_overlay_models(models: &[ModelInfo], current_model: &Option<ModelInfo>) -> (r: Vec<
    ModelInfo,
>)
    ensures
        model_views(r@) == in_order(model_views(models@), opt_model(*current_model)),
{
    let ghost all = model_views(models@);
    let ghost cur = opt_model(*current_model);
    let mut out: Vec<ModelInfo> = Vec::new();
    let mut i: usize = 0;
    assert(all.take(0) =~= Seq::<ModelView>::empty());
    assert(model_views(out@) =~= Seq::<ModelView>::empty());
    while i < models.len()
        invariant
            0 <= i <= models.len(),
            all == model_views(models@),
            cur == opt_model(*current_model),
            model_views(out@) == in_order(all.take(i as int), cur),
        decreases models.len() - i,
    {
        assert(all.take(i + 1).drop_last() =~= all.take(i as int));
        let m = copy_model(&models[i]);
        let mut k: usize = out.len();
        while k > 0 && less(&m, &out[k - 1], current_model)
            invariant
                0 <= k <= out.len(),
                cur == opt_model(*current_model),
                forall|j: int|
                    k <= j < out.len() ==> stands_before(
                        model_view(m),
                        #[trigger] model_views(out@)[j],
                        cur,
                    ),
            decreases k,
        {
            k -= 1;
            assert(model_views(out@)[k as int] == model_view(out@[k as int]));
        }
        let ghost sorted = model_views(out@);
        proof {
            if k > 0 {
                assert(sorted[k - 1] == model_view(out@[k - 1]));
            }
            placed_is_insert(sorted, model_view(m), cur, k as int);
        }
        let ghost view = model_view(m);
        out.insert(k, m);
        assert(model_views(out@) =~= sorted.insert(k as int, view));
        i += 1;
    }
    assert(all.take(i as int) =~= all);
    out
}

/// Whether no model stands before one that is above it.
pub open spec fn is_ordered(models: Seq<ModelView>, current: Option<ModelView>) -> bool {
    forall|i: int, j: int|
        0 <= i < j < models.len() ==> !stands_before(#[trigger] models[j], #[trigger] models[i], current)
}

proof fn before_is_an_order(
    a: ModelView,
    b: ModelView,
    c: ModelView,
    current: Option<ModelView>,
)
    ensures
        stands_before(a, b, current) ==> !stands_before(b, a, current),
        !stands_before(b, a, current) && !stands_before(c, b, current) ==> !stands_before(
            c,
            a,
            current,
        ),
{
    text::text_less_is_total(a.provider, b.provider);
    text::text_less_is_total(b.provider, c.provider);
    text::text_less_is_total(a.provider, c.provider);
    text::text_less_is_total(a.id, b.id);
    text::text_less_is_total(b.id, c.id);
    text::text_less_is_total(a.id, c.id);
    if text::text_less(c.provider, a.provider) && text::text_less(a.provider, b.provider) {
        text::text_less_is_transitive(c.provider, a.provider, b.provider);
    }
    if text::text_less(b.provider, c.provider) && text::text_less(c.provider, a.provider) {
        text::text_less_is_transitive(b.provider, c.provider, a.provider);
    }
    if text::text_less(c.id, a.id) && text::text_less(a.id, b.id) {
        text::text_less_is_transitive(c.id, a.id, b.id);
    }
    if text::text_less(b.id, c.id) && text::text_less(c.id, a.id) {
        text::text_less_is_transitive(b.id, c.id, a.id);
    }
}

proof fn placed_keeps_order(sorted: Seq<ModelView>, m: ModelView, current: Option<ModelView>)
    requires
        is_ordered(sorted, current),
    ensures
        is_ordered(placed(sorted, m, current), current),
        placed(sorted, m, current).to_multiset() == sorted.to_multiset().insert(m),
    decreases sorted.len(),
{
    broadcast use vstd::seq_lib::group_to_multiset_ensures;

    let r = placed(sorted, m, current);
    if sorted.len() == 0 || !stands_before(m, sorted.last(), current) {
        assert forall|i: int, j: int| 0 <= i < j < r.len() implies !stands_before(
            #[trigger] r[j],
            #[trigger] r[i],
            current,
        ) by {
            if j == sorted.len() && i < sorted.len() - 1 {
                assert(!stands_before(sorted[sorted.len() - 1], sorted[i], current));
                before_is_an_order(sorted[i], sorted.last(), m, current);
            }
        }
    } else {
        let last = sorted.last();
        let shorter = sorted.drop_last();
        assert(is_ordered(shorter, current)) by {
            assert forall|i: int, j: int| 0 <= i < j < shorter.len() implies !stands_before(
                #[trigger] shorter[j],
                #[trigger] shorter[i],
                current,
            ) by {
                assert(shorter[j] == sorted[j] && shorter[i] == sorted[i]);
            }
        }
        placed_keeps_order(shorter, m, current);
        let p = placed(shorter, m, current);
        assert forall|i: int| 0 <= i < p.len() implies !stands_before(
            last,
            #[trigger] p[i],
            current,
        ) by {
            assert(p.to_multiset().count(p[i]) > 0) by {
                assert(p.contains(p[i]));
            }
            if p[i] == m {
                before_is_an_order(m, last, m, current);
            } else {
                assert(shorter.to_multiset().count(p[i]) > 0);
                assert(shorter.contains(p[i]));
                let k = choose|k: int| 0 <= k < shorter.len() && shorter[k] == p[i];
                assert(sorted[k] == p[i]);
                assert(!stands_before(sorted[sorted.len() - 1], sorted[k], current));
            }
        }
        assert(sorted =~= shorter.push(last));
        assert(r.to_multiset() =~= sorted.to_multiset().insert(m));
    }
}

/// Putting models in order leaves none out and adds none, and no model stands before one above it.
pub proof fn sorting_models(models: Seq<ModelView>, current: Option<ModelView>)
    ensures
        is_ordered(in_order(models, current), current),
        in_order(models, current).to_multiset() == models.to_multiset(),
    decreases models.len(),
{
    broadcast use vstd::seq_lib::group_to_multiset_ensures;

    if models.len() > 0 {
        sorting_models(models.drop_last(), current);
        placed_keeps_order(in_order(models.drop_last(), current), models.last(), current);
        assert(models =~= models.drop_last().push(models.last()));
    } else {
        assert(in_order(models, current) =~= models);
    }
}

/// The current model, where it is among the models, stands first.
pub proof fn current_model_stands_first(models: Seq<ModelView>, current: Option<ModelView>, i: int)
    requires
        0 <= i < models.len(),
        is_current(models[i], current),
    ensures
        is_current(in_order(models, current)[0], current),
{
    broadcast use vstd::seq_lib::group_to_multiset_ensures;

    sorting_models(models, current);
    let sorted = in_order(models, current);
    assert(models.contains(models[i]));
    assert(sorted.to_multiset().count(models[i]) > 0);
    assert(sorted.contains(models[i]));
    let k = choose|k: int| 0 <= k < sorted.len() && sorted[k] == models[i];
    if k > 0 {
        assert(!stands_before(sorted[k], sorted[0], current));
    }
}

/// What a model can do.
pub open spec fn ability(m: ModelView) -> Seq<char> {
    m.name + " · "@ + (if m.reasoning {
        "reasoning"@
    } else {
        "text"@
    }) + " · "@ + numbers::token_text(m.context_window) + " ctx"@
}

/// What a model can do.
pub fn describe_model(m: &ModelInfo) -> (r: String)
    ensures
        r@ == ability(model_view(*m)),
{
    let start = cat3(
        m.name.as_str(),
        " · ",
        if m.reasoning {
            "reasoning"
        } else {
            "text"
        },
    );
    cat4(start.as_str(), " · ", format_token_count(m.context_window).as_str(), " ctx")
}

/// A model as an item of the list.
pub open spec fn model_item(m: ModelView, current: Option<ModelView>) -> ItemView {
    ItemView {
        value: full_id(m),
        label: m.id + " ["@ + m.provider + "]"@ + (if is_current(m, current) {
            " ✓"@
        } else {
            ""@
        }),
        description: Some(ability(m)),
    }
}

/// Models as items of the list.
pub open spec fn model_items(models: Seq<ModelView>, current: Option<ModelView>) -> Seq<ItemView> {
    Seq::new(models.len(), |i: int| model_item(models[i], current))
}

/// What the choice of each model stands for.
pub open spec fn model_selections(models: Seq<ModelView>) -> Seq<SelectionView> {
    Seq::new(
        models.len(),
        |i: int|
            SelectionView::Model { provider: models[i].provider, model_id: models[i].id },
    )
}

/// The items of the models in order, and what the choice of each stands for.
pub fn build_model_overlay_items(models: &[ModelInfo], current_model: &Option<ModelInfo>) -> (r: (
    Vec<SelectItem>,
    Vec<OverlaySelection>,
))
    ensures
        overlay::items(r.0@) == model_items(
            in_order(model_views(models@), opt_model(*current_model)),
            opt_model(*current_model),
        ),
        overlay::selections(r.1@) == model_selections(
            in_order(model_views(models@), opt_model(*current_model)),
        ),
{
    let sorted = sort_model_overlay_models(models, current_model);
    let ghost all = model_views(sorted@);
    let ghost cur = opt_model(*current_model);
    let ghost shown = model_items(all, cur);
    let ghost meant = model_selections(all);
    let mut items: Vec<SelectItem> = Vec::new();
    let mut selections: Vec<OverlaySelection> = Vec::new();
    let mut i: usize = 0;
    assert(overlay::items(items@) =~= shown.take(0));
    assert(overlay::selections(selections@) =~= meant.take(0));
    while i < sorted.len()
        invariant
            0 <= i <= sorted.len(),
            all == model_views(sorted@),
            cur == opt_model(*current_model),
            shown == model_items(all, cur),
            meant == model_selections(all),
            overlay::items(items@) == shown.take(i as int),
            overlay::selections(selections@) == meant.take(i as int),
        decreases sorted.len() - i,
    {
        let m = &sorted[i];
        let mark = if current(m, current_model) {
            " ✓"
        } else {
            ""
        };
        let item = SelectItem {
            value: model_full_id(m),
            label: cat5(m.id.as_str(), " [", m.provider.as_str(), "]", mark),
            description: Some(describe_model(m)),
        };
        assert(item@ == shown[i as int]);
        let ghost items_before = items@;
        items.push(item);
        let selection = OverlaySelection::Model {
            provider: copy_text(m.provider.as_str()),
            model_id: copy_text(m.id.as_str()),
        };
        let ghost selections_before = selections@;
        selections.push(selection);
        i += 1;
        assert(overlay::items(items@) =~= overlay::items(items_before).push(shown[i - 1]));
        assert(overlay::items(items@) =~= shown.take(i as int));
        assert(overlay::selections(selections@) =~= overlay::selections(selections_before).push(
            meant[i - 1],
        ));
        assert(overlay::selections(selections@) =~= meant.take(i as int));
    }
    assert(shown.take(i as int) =~= shown);
    assert(meant.take(i as int) =~= meant);
    (items, selections)
}

/// Which models are shown.
#[derive(Clone, Copy, Debug, PartialEq, Eq, Structural)]
pub enum ModelOverlayScope {
    All,
    Scoped,
}

impl ModelOverlayScope {
    /// The other scope.
    pub open spec fn other(self) -> ModelOverlayScope {
        match self {
            ModelOverlayScope::All => ModelOverlayScope::Scoped,
            ModelOverlayScope::Scoped => ModelOverlayScope::All,
        }
    }

    /// The name of the scope.
    pub open spec fn name(self) -> Seq<char> {
        match self {
            ModelOverlayScope::All => "all"@,
            ModelOverlayScope::Scoped => "scoped"@,
        }
    }

    /// The name of the scope.
    pub fn label(self) -> (r: &'static str)
        ensures
            r@ == self.name(),
    {
        match self {
            ModelOverlayScope::All => "all",
            ModelOverlayScope::Scoped => "scoped",
        }
    }

    /// The other scope.
    pub fn next(self) -> (r: ModelOverlayScope)
        ensures
            r == self.other(),
            r.other() == self,
    {
        match self {
            ModelOverlayScope::All => ModelOverlayScope::Scoped,
            ModelOverlayScope::Scoped => ModelOverlayScope::All,
        }
    }
}

/// The texts around the list of models.
#[derive(Clone, Debug, PartialEq, Eq)]
pub struct OverlayTexts {
    pub title: String,
    pub subtitle: String,
    pub detail: Option<String>,
    pub hint: String,
}

/// The subtitle above the list of models.
pub open spec fn model_subtitle(
    available: nat,
    scoped: nat,
    current: Option<ModelView>,
    scope: ModelOverlayScope,
    selected: Option<ItemView>,
) -> Seq<char> {
    let counts = if scoped > 0 {
        "scope "@ + scope.name() + " · "@ + text::decimal(available) + " all · "@ + text::decimal(
            scoped,
        ) + " scoped"@
    } else {
        text::decimal(available) + " available"@
    };
    let name = match current {
        Some(m) => full_id(m),
        None => "no-model"@,
    };
    let chosen = match selected {
        Some(item) => " · "@ + screen::cut(text::replace_char(item.label, '\n', " "@), 48),
        None => ""@,
    };
    counts + "\ncurrent "@ + name + chosen
}

/// The hint below the list of models.
pub open spec fn model_hint(scoped: nat) -> Seq<char> {
    if scoped > 0 {
        "Tab toggles scope · Enter selects · Search filters id/provider/name · Esc cancels"@
    } else {
        "Enter selects · Search filters id/provider/name · Esc cancels"@
    }
}

/// An optional item, as a mathematical value.
pub open spec fn opt_item(item: Option<&SelectItem>) -> Option<ItemView> {
    match item {
        Some(i) => Some(i@),
        None => None,
    }
}

/// The texts around the list of models: how many there are, which one is in use and which one is
/// selected.
pub fn model_overlay_texts(
    available_count: usize,
    scoped_count: usize,
    current_model: &Option<ModelInfo>,
    scope: ModelOverlayScope,
    selected: Option<&SelectItem>,
) -> (r: OverlayTexts)
    ensures
        r.title@ == "Model Selector"@,
        r.subtitle@ == model_subtitle(
            available_count as nat,
            scoped_count as nat,
            opt_model(*current_model),
            scope,
            opt_item(selected),
        ),
        text::opt_text(r.detail) == (match opt_item(selected) {
            Some(item) => item.description,
            None => None,
        }),
        r.hint@ == model_hint(scoped_count as nat),
{
    let counts = if scoped_count > 0 {
        let first = cat4("scope ", scope.label(), " · ", decimal_text(available_count as u64).as_str());
        cat4(first.as_str(), " all · ", decimal_text(scoped_count as u64).as_str(), " scoped")
    } else {
        cat2(decimal_text(available_count as u64).as_str(), " available")
    };
    let name = match current_model {
        Some(m) => model_full_id(m),
        None => copy_text("no-model"),
    };
    let chosen = match selected {
        Some(item) => cat2(
            " · ",
            truncate_to_width(text::replaced_char(item.label.as_str(), '\n', " ").as_str(), 48).as_str(),
        ),
        None => copy_text(""),
    };
    OverlayTexts {
        title: copy_text("Model Selector"),
        subtitle: cat4(counts.as_str(), "\ncurrent ", name.as_str(), chosen.as_str()),
        detail: match selected {
            Some(item) => text::copy_opt(&item.description),
            None => None,
        },
        hint: if scoped_count > 0 {
            copy_text(
                "Tab toggles scope · Enter selects · Search filters id/provider/name · Esc cancels",
            )
        } else {
            copy_text("Enter selects · Search filters id/provider/name · Esc cancels")
        },
    }
}

/// The line that says which models are shown.
pub open spec fn scope_line(scoped: nat, scope: ModelOverlayScope) -> Seq<char> {
    if scoped == 0 {
        screen::warning("Only showing models with configured API keys (see README for details)"@)
    } else {
        screen::hint("Scope: "@) + (if scope == ModelOverlayScope::All {
            screen::brand("all"@)
        } else {
            screen::hint("all"@)
        }) + screen::hint(" | "@) + (if scope == ModelOverlayScope::Scoped {
            screen::brand("scoped"@)
        } else {
            screen::hint("scoped"@)
        })
    }
}

/// The line that says which models are shown.
pub fn model_overlay_scope_line(scoped_count: usize, scope: ModelOverlayScope) -> (r: String)
    ensures
        r@ == scope_line(scoped_count as nat, scope),
{
    if scoped_count == 0 {
        return style_warning(
            "Only showing models with configured API keys (see README for details)",
        );
    }
    let all = if scope == ModelOverlayScope::All {
        style_brand("all")
    } else {
        style_hint("all")
    };
    let scoped = if scope == ModelOverlayScope::Scoped {
        style_brand("scoped")
    } else {
        style_hint("scoped")
    };
    cat4(
        style_hint("Scope: ").as_str(),
        all.as_str(),
        style_hint(" | ").as_str(),
        scoped.as_str(),
    )
}

/// The place of a list: which models pass the filter, and which of those is selected.
pub struct ListPlace {
    pub filtered: Vec<usize>,
    pub selected: usize,
    pub max_visible: usize,
}

/// The model at a place of the filtered list.
pub open spec fn filtered_model(models: Seq<ModelView>, filtered: Seq<usize>, i: int) -> Option<ModelView> {
    if 0 <= i < filtered.len() && filtered[i] < models.len() {
        Some(models[filtered[i] as int])
    } else {
        None
    }
}

/// The model at a place among those that the filter lets through.
pub fn model_at<'a>(models: &'a [ModelInfo], filtered: &[usize], i: usize) -> (r: Option<&'a ModelInfo>)
    ensures
        (match r {
            Some(m) => Some(model_view(*m)),
            None => None,
        }) == filtered_model(model_views(models@), filtered@, i as int),
{
    if i >= filtered.len() {
        return None;
    }
    let k: usize = filtered[i];
    if k >= models.len() {
        return None;
    }
    Some(&models[k])
}

/// The mark before a row.
pub open spec fn row_mark(selected: bool) -> Seq<char> {
    if selected {
        screen::brand("→ "@)
    } else {
        "  "@
    }
}

/// What stands before a row: an arrow before the selected one, spaces before the others.
pub fn mark(selected: bool) -> (r: String)
    ensures
        r@ == row_mark(selected),
{
    if selected {
        style_brand("→ ")
    } else {
        copy_text("  ")
    }
}

/// Text in the color of the selected row, or as it is.
pub open spec fn if_selected(selected: bool, s: Seq<char>) -> Seq<char> {
    if selected {
        screen::brand(s)
    } else {
        s
    }
}

/// How many columns the identifier of a model may take, and at least sixteen.
pub open spec fn id_room(mark: Seq<char>, width: nat) -> nat {
    let used = screen::width_of(mark) + screen::width_of(" [] ✓"@);
    if used + 16 <= width {
        (width - used) as nat
    } else {
        16
    }
}

/// A row of the list of models.
pub open spec fn model_row(m: ModelView, current: Option<ModelView>, selected: bool, width: nat) -> Seq<
    char,
> {
    let mark = row_mark(selected);
    screen::fitted(
        mark + if_selected(selected, screen::cut(m.id, id_room(mark, width))) + " "@
            + screen::hint("["@ + m.provider + "]"@) + (if is_current(m, current) {
            screen::success(" ✓"@)
        } else {
            ""@
        }),
        width,
    )
}

/// The rows of the list of models from one place up to another.
pub open spec fn model_rows_upto(
    models: Seq<ModelView>,
    filtered: Seq<usize>,
    current: Option<ModelView>,
    selected: nat,
    from: int,
    to: int,
    width: nat,
) -> Seq<Seq<char>>
    decreases to - from,
{
    if to <= from {
        Seq::empty()
    } else {
        let above = model_rows_upto(models, filtered, current, selected, from, to - 1, width);
        match filtered_model(models, filtered, to - 1) {
            Some(m) => above.push(model_row(m, current, to - 1 == selected, width)),
            None => above,
        }
    }
}

/// Where in a long list the selected row is.
pub open spec fn position_note(selected: nat, count: nat, width: nat) -> Seq<char> {
    screen::fitted(
        screen::hint(
            "  ("@ + text::decimal(selected + 1) + "/"@ + text::decimal(count) + ")"@,
        ),
        width,
    )
}

/// The rows of the list of models.
pub open spec fn model_rows(
    models: Seq<ModelView>,
    current: Option<ModelView>,
    place: ListPlace,
    width: nat,
) -> Seq<Seq<char>> {
    let count = place.filtered@.len();
    if count == 0 {
        seq![screen::fitted(screen::hint("  No matching models"@), width)]
    } else {
        let (start, end) = overlay::visible_bounds(
            count,
            place.selected as nat,
            place.max_visible as nat,
        );
        model_rows_upto(
            models,
            place.filtered@,
            current,
            place.selected as nat,
            start as int,
            end as int,
            width,
        ) + chrome::only_if(
            start > 0 || end < count,
            position_note(place.selected as nat, count, width),
        )
    }
}

/// The line that tells where in the list the selected item stands.
pub fn note_position(selected: usize, count: usize, width: u16) -> (r: String)
    requires
        selected < usize::MAX,
    ensures
        r@ == position_note(selected as nat, count as nat, width as nat),
{
    let start = cat3("  (", decimal_text((selected + 1) as u64).as_str(), "/");
    fit_line(
        style_hint(
            cat3(start.as_str(), decimal_text(count as u64).as_str(), ")").as_str(),
        ).as_str(),
        width,
    )
}

fn row_of_model(m: &ModelInfo, current_model: &Option<ModelInfo>, selected: bool, width: u16) -> (r:
    String)
    ensures
        r@ == model_row(model_view(*m), opt_model(*current_model), selected, width as nat),
{
    let prefix = mark(selected);
    let a = visible_width(prefix.as_str());
    let b = visible_width(" [] ✓");
    let w: usize = width as usize;
    let room: usize = if a <= w && b <= w - a && w - a - b >= 16 {
        w - a - b
    } else {
        16
    };
    let id = truncate_to_width(m.id.as_str(), room);
    let shown = if selected {
        style_brand(id.as_str())
    } else {
        id
    };
    let badge = style_hint(cat3("[", m.provider.as_str(), "]").as_str());
    let check = if current(m, current_model) {
        style_success(" ✓")
    } else {
        copy_text("")
    };
    fit_line(
        cat5(prefix.as_str(), shown.as_str(), " ", badge.as_str(), check.as_str()).as_str(),
        width,
    )
}

/// The rows of the list of models.
pub fn append_model_overlay_rows(
    models: &[ModelInfo],
    current_model: &Option<ModelInfo>,
    place: &ListPlace,
    width: u16,
) -> (r: Vec<String>)
    requires
        place.selected < usize::MAX,
    ensures
        text::texts(r@) == model_rows(
            model_views(models@),
            opt_model(*current_model),
            *place,
            width as nat,
        ),
{
    let mut out: Vec<String> = Vec::new();
    let count: usize = place.filtered.len();
    if count == 0 {
        out.push(fit_line(style_hint("  No matching models").as_str(), width));
        assert(text::texts(out@) =~= model_rows(
            model_views(models@),
            opt_model(*current_model),
            *place,
            width as nat,
        ));
        return out;
    }
    let (start, end) = select_list_visible_bounds(count, place.selected, place.max_visible);
    let ghost views = model_views(models@);
    let ghost cur = opt_model(*current_model);
    if start < end {
        let mut i: usize = start;
        while i < end
            invariant
                start <= i <= end,
                views == model_views(models@),
                cur == opt_model(*current_model),
                text::texts(out@) == model_rows_upto(
                    views,
                    place.filtered@,
                    cur,
                    place.selected as nat,
                    start as int,
                    i as int,
                    width as nat,
                ),
            decreases end - i,
        {
            match model_at(models, place.filtered.as_slice(), i) {
                Some(m) => {
                    out.push(row_of_model(m, current_model, i == place.selected, width));
                },
                None => {},
            }
            i += 1;
        }
    }
    if start > 0 || end < count {
        out.push(note_position(place.selected, count, width));
    }
    assert(text::texts(out@) =~= model_rows(views, cur, *place, width as nat));
    out
}

/// The name of the selected model.
pub open spec fn selected_name(models: Seq<ModelView>, place: ListPlace) -> Option<Seq<char>> {
    match filtered_model(models, place.filtered@, place.selected as int) {
        Some(m) => Some(m.name),
        None => None,
    }
}

/// The overlay that a model is chosen in.
pub open spec fn model_overlay(
    models: Seq<ModelView>,
    current: Option<ModelView>,
    place: ListPlace,
    scope: ModelOverlayScope,
    scoped: nat,
    width: nat,
) -> Seq<PieceView> {
    pieces::rule(width) + seq![
        PieceView::Blank,
        PieceView::Flow(scope_line(scoped, scope)),
    ] + (if scoped > 0 {
        seq![PieceView::Flow(screen::hint("Tab scope (all/scoped)"@))]
    } else {
        Seq::empty()
    }) + seq![PieceView::Blank, PieceView::Field(false), PieceView::Blank] + pieces::rows(
        model_rows(models, current, place, width),
    ) + (match selected_name(models, place) {
        Some(name) => seq![
            PieceView::Blank,
            PieceView::Flow(screen::hint("  Model Name: "@ + name)),
        ],
        None => Seq::empty(),
    }) + seq![PieceView::Blank] + pieces::rule(width)
}

/// The overlay that a model is chosen in.
pub fn render_model_overlay(
    models: &[ModelInfo],
    current_model: &Option<ModelInfo>,
    place: &ListPlace,
    scope: ModelOverlayScope,
    scoped_count: usize,
    width: u16,
) -> (r: Vec<Piece>)
    requires
        place.selected < usize::MAX,
    ensures
        pieces::views(r@) == model_overlay(
            model_views(models@),
            opt_model(*current_model),
            *place,
            scope,
            scoped_count as nat,
            width as nat,
        ),
{
    let mut out: Vec<Piece> = Vec::new();
    append_rule_line(&mut out, width);
    out.push(Piece::Blank);
    out.push(Piece::Flow(model_overlay_scope_line(scoped_count, scope)));
    if scoped_count > 0 {
        out.push(Piece::Flow(style_hint("Tab scope (all/scoped)")));
    }
    out.push(Piece::Blank);
    out.push(Piece::Field(false));
    out.push(Piece::Blank);
    push_rows(&mut out, append_model_overlay_rows(models, current_model, place, width));
    match model_at(models, place.filtered.as_slice(), place.selected) {
        Some(m) => {
            out.push(Piece::Blank);
            out.push(Piece::Flow(style_hint(cat2("  Model Name: ", m.name.as_str()).as_str())));
        },
        None => {},
    }
    out.push(Piece::Blank);
    append_rule_line(&mut out, width);
    assert(pieces::views(out@) =~= model_overlay(
        model_views(models@),
        opt_model(*current_model),
        *place,
        scope,
        scoped_count as nat,
        width as nat,
    ));
    out
}

/// The entry of a model leads to that model: it carries its identifier in the list, and its
/// provider and its own name as what is chosen; the current model is the one that is marked.
pub proof fn model_items_lead_to_models(
    models: Seq<ModelView>,
    current: Option<ModelView>,
    k: int,
)
    requires
        0 <= k < models.len(),
    ensures
        model_items(models, current).len() == models.len(),
        model_selections(models).len() == models.len(),
        model_items(models, current)[k].value == models[k].provider + seq!['/'] + models[k].id,
        model_selections(models)[k] == (SelectionView::Model {
            provider: models[k].provider,
            model_id: models[k].id,
        }),
        text::has_prefix(model_items(models, current)[k].label, models[k].id),
        text::has_suffix(model_items(models, current)[k].label, "] ✓"@) <==> is_current(
            models[k],
            current,
        ),
        text::has_prefix(model_items(models, current)[k].description->0, models[k].name),
{
    let item = model_items(models, current)[k];
    let m = models[k];
    assert(item == model_item(m, current));
    reveal_strlit("/");
    reveal_strlit(" [");
    reveal_strlit("]");
    reveal_strlit(" ✓");
    reveal_strlit("] ✓");
    reveal_strlit("");
    assert("/"@ =~= seq!['/']);
    assert(item.label.take(m.id.len() as int) =~= m.id);
    let d = item.description->0;
    assert(d.take(m.name.len() as int) =~= m.name);
    let n = item.label.len();
    if is_current(m, current) {
        assert(item.label.skip(n - 3) =~= "] ✓"@);
    } else {
        assert(item.label.last() == ']');
        if n >= 3 {
            assert(item.label.skip(n - 3)[2] == ']');
        }
    }
}

/// Each row is that of the model that stands there, the selected one being marked, and none is
/// left out.
pub proof fn model_rows_are_shown(
    models: Seq<ModelView>,
    filtered: Seq<usize>,
    current: Option<ModelView>,
    selected: nat,
    from: int,
    to: int,
    width: nat,
    k: int,
)
    requires
        0 <= from <= k < to <= filtered.len(),
        forall|i: int| 0 <= i < filtered.len() ==> (#[trigger] filtered[i]) < models.len(),
    ensures
        model_rows_upto(models, filtered, current, selected, from, to, width).len() == to - from,
        model_rows_upto(models, filtered, current, selected, from, to, width)[k - from]
            == model_row(models[filtered[k] as int], current, k == selected, width),
    decreases to - from,
{
    assert(filtered[to - 1] < models.len());
    if to - 1 > from {
        model_rows_are_shown(
            models,
            filtered,
            current,
            selected,
            from,
            to - 1,
            width,
            if k < to - 1 {
                k
            } else {
                from
            },
        );
    } else {
        assert(model_rows_upto(models, filtered, current, selected, from, from, width).len() == 0);
    }
}

/// A row shows its model: where there is room, the arrow of the selected one, the name that it has
/// with its provider, the provider, and a mark on the current one.
#[verifier::rlimit(60)]
pub proof fn rows_show_their_model(
    m: ModelView,
    current: Option<ModelView>,
    selected: bool,
    width: nat,
    shown: Seq<char>,
)
    requires
        !m.id.contains('\x1b'),
        !m.provider.contains('\x1b'),
        m.id.len() <= 16,
        shown == (if selected {
            seq!['→', ' ']
        } else {
            seq![' ', ' ']
        }) + m.id + seq![' ', '['] + m.provider + seq![']'] + (if is_current(m, current) {
            seq![' ', '✓']
        } else {
            Seq::empty()
        }),
        shown.len() <= width,
    ensures
        screen::visible(model_row(m, current, selected, width)) == shown + text::repeated(
            ' ',
            (width - shown.len()) as nat,
        ),
{
    screen::inline_codes();
    screen::other_codes();
    reveal_strlit("→ ");
    reveal_strlit("  ");
    reveal_strlit(" ");
    reveal_strlit("[");
    reveal_strlit("]");
    reveal_strlit(" ✓");
    reveal_strlit("");
    let arrow = "→ "@;
    let blank = "  "@;
    let mark = row_mark(selected);
    screen::plain_is_visible(arrow);
    screen::plain_is_visible(blank);
    screen::styled_shows_the_text("1;38;2;138;190;183"@, arrow);
    let head = (if selected {
        seq!['→', ' ']
    } else {
        seq![' ', ' ']
    });
    assert(arrow =~= seq!['→', ' ']);
    assert(blank =~= seq![' ', ' ']);
    assert(screen::visible(mark) == head);
    let room = id_room(mark, width);
    let name = screen::cut(m.id, room);
    screen::plain_is_visible(m.id);
    screen::visible_is_wide(screen::Scan::Plain, m.id);
    screen::cut_keeps_to_width(m.id, room);
    assert(name == m.id);
    screen::styled_shows_the_text("1;38;2;138;190;183"@, m.id);
    let named = if_selected(selected, name);
    assert(screen::visible(named) == m.id);
    let gap = " "@;
    screen::plain_is_visible(gap);
    let provider = "["@ + m.provider + "]"@;
    screen::plain_is_visible(provider);
    screen::styled_shows_the_text("38;2;128;128;128"@, provider);
    let tick = " ✓"@;
    screen::plain_is_visible(tick);
    screen::styled_shows_the_text("38;2;181;189;104"@, tick);
    let end = (if is_current(m, current) {
        screen::success(tick)
    } else {
        ""@
    });
    screen::plain_is_visible(""@);
    let a = mark + named;
    screen::visible_adds_up(mark, named);
    let b = a + gap;
    screen::visible_adds_up(a, gap);
    let c = b + screen::hint(provider);
    screen::visible_adds_up(b, screen::hint(provider));
    let d = c + end;
    screen::visible_adds_up(c, end);
    assert(screen::visible(d) =~= shown);
    screen::fitted_shows_the_text(d, width);
    if shown.len() == width {
        assert(shown.take(width as int) =~= shown);
        assert(text::repeated(' ', 0) =~= Seq::<char>::empty());
        assert(shown + text::repeated(' ', 0) =~= shown);
    }
}

/// The list of models shows the row of each model in view; where some are out of view, the place
/// in the list follows; where none matches, that is said.
pub proof fn models_in_view_are_shown(
    models: Seq<ModelView>,
    current: Option<ModelView>,
    place: ListPlace,
    width: nat,
    k: int,
)
    requires
        place.selected < place.filtered@.len(),
        place.max_visible > 0,
        forall|i: int|
            0 <= i < place.filtered@.len() ==> (#[trigger] place.filtered@[i]) < models.len(),
    ensures
        ({
            let (start, end) = overlay::visible_bounds(
                place.filtered@.len(),
                place.selected as nat,
                place.max_visible as nat,
            );
            let rows = model_rows(models, current, place, width);
            &&& start <= k < end ==> rows[k - start] == model_row(
                models[place.filtered@[k] as int],
                current,
                k == place.selected,
                width,
            )
            &&& start == 0 && end == place.filtered@.len() ==> rows.len() == end
            &&& start > 0 || end < place.filtered@.len() ==> rows.len() == end - start + 1
                && rows.last() == position_note(
                place.selected as nat,
                place.filtered@.len(),
                width,
            )
        }),
{
    let (start, end) = overlay::visible_bounds(
        place.filtered@.len(),
        place.selected as nat,
        place.max_visible as nat,
    );
    overlay::selected_is_visible(
        place.filtered@.len(),
        place.selected as nat,
        place.max_visible as nat,
    );
    let at = if start <= k < end {
        k
    } else {
        place.selected as int
    };
    model_rows_are_shown(
        models,
        place.filtered@,
        current,
        place.selected as nat,
        start as int,
        end as int,
        width,
        at,
    );
}

/// The place in the list is told as the number of the selected entry, counted from one, and how
/// many there are.
pub proof fn place_in_the_list_is_told(selected: nat, count: nat, width: nat)
    requires
        text::decimal(selected + 1).len() + text::decimal(count).len() + 5 <= width,
    ensures
        text::has_prefix(
            screen::visible(position_note(selected, count, width)),
            seq![' ', ' ', '('] + text::decimal(selected + 1) + seq!['/'] + text::decimal(count)
                + seq![')'],
        ),
{
    reveal_strlit("  (");
    reveal_strlit("/");
    reveal_strlit(")");
    let s = "  ("@ + text::decimal(selected + 1) + "/"@ + text::decimal(count) + ")"@;
    let t = seq![' ', ' ', '('] + text::decimal(selected + 1) + seq!['/'] + text::decimal(count)
        + seq![')'];
    assert(s =~= t);
    let a = text::decimal(selected + 1);
    let b = text::decimal(count);
    settings::decimals_are_read_back(selected + 1);
    settings::decimals_are_read_back(count);
    assert(!s.contains('\x1b')) by {
        if s.contains('\x1b') {
            let k = choose|k: int| 0 <= k < s.len() && s[k] == '\x1b';
            if 3 <= k < 3 + a.len() {
                assert(settings::is_digit(a[k - 3]));
            } else if 4 + a.len() <= k < 4 + a.len() + b.len() {
                assert(settings::is_digit(b[k - 4 - a.len()]));
            }
        }
    }
    screen::inline_codes();
    screen::plain_is_visible(s);
    screen::styled_shows_the_text("38;2;128;128;128"@, s);
    screen::fitted_shows_the_text(screen::hint(s), width);
    let shown = screen::visible(position_note(selected, count, width));
    assert(shown.take(t.len() as int) =~= t);
}

/// The overlay shows the rows of the models, the field above them and the name of the selected
/// model below.
pub proof fn model_overlay_shows_its_parts(
    models: Seq<ModelView>,
    current: Option<ModelView>,
    place: ListPlace,
    scope: ModelOverlayScope,
    scoped: nat,
    width: nat,
    k: int,
)
    ensures
        0 <= k < model_rows(models, current, place, width).len() ==> model_overlay(
            models,
            current,
            place,
            scope,
            scoped,
            width,
        ).contains(PieceView::Row(model_rows(models, current, place, width)[k])),
        model_overlay(models, current, place, scope, scoped, width).contains(
            PieceView::Field(false),
        ),
        model_overlay(models, current, place, scope, scoped, width).contains(
            PieceView::Flow(scope_line(scoped, scope)),
        ),
        selected_name(models, place) matches Some(name) ==> model_overlay(
            models,
            current,
            place,
            scope,
            scoped,
            width,
        ).contains(PieceView::Flow(screen::hint("  Model Name: "@ + name))),
{
    let all = model_overlay(models, current, place, scope, scoped, width);
    let rows = pieces::rows(model_rows(models, current, place, width));
    let r = pieces::rule(width).len() as int;
    let t = (if scoped > 0 {
        1int
    } else {
        0int
    });
    assert(all[r + 1] == PieceView::Flow(scope_line(scoped, scope)));
    assert(all[r + 3 + t] == PieceView::Field(false));
    let from = r + 5 + t;
    if 0 <= k < rows.len() {
        assert(all[from + k] == rows[k]);
    }
    if let Some(name) = selected_name(models, place) {
        assert(all[from + rows.len() + 1] == PieceView::Flow(
            screen::hint("  Model Name: "@ + name),
        ));
    }
}

/// The selected model is the one whose name is shown.
pub proof fn selected_model_is_named(models: Seq<ModelView>, place: ListPlace)
    requires
        place.selected < place.filtered@.len(),
        place.filtered@[place.selected as int] < models.len(),
    ensures
        selected_name(models, place) == Some(
            models[place.filtered@[place.selected as int] as int].name,
        ),
{
}

/// The subtitle names the model that is in use.
pub proof fn subtitle_names_the_current_model(
    available: nat,
    scoped: nat,
    current: ModelView,
    scope: ModelOverlayScope,
)
    ensures
        text::has_suffix(
            model_subtitle(available, scoped, Some(current), scope, None),
            "\ncurrent "@ + full_id(current),
        ),
        scoped == 0 ==> text::has_prefix(
            model_subtitle(available, scoped, Some(current), scope, None),
            text::decimal(available) + " available"@,
        ),
        scoped > 0 ==> text::has_prefix(
            model_subtitle(available, scoped, Some(current), scope, None),
            "scope "@ + scope.name() + " · "@ + text::decimal(available) + " all · "@
                + text::decimal(scoped) + " scoped"@,
        ),
{
    reveal_strlit("");
    let s = model_subtitle(available, scoped, Some(current), scope, None);
    let end = "\ncurrent "@ + full_id(current);
    assert(s.skip(s.len() - end.len()) =~= end);
    let few = text::decimal(available) + " available"@;
    let many = "scope "@ + scope.name() + " · "@ + text::decimal(available) + " all · "@
        + text::decimal(scoped) + " scoped"@;
    if scoped == 0 {
        assert(s.take(few.len() as int) =~= few);
    } else {
        assert(s.take(many.len() as int) =~= many);
    }
}

/// Switching the scope twice leads back.
pub proof fn scopes_alternate(scope: ModelOverlayScope)
    ensures
        scope.other() != scope,
        scope.other().other() == scope,
{
}

} // verus!
