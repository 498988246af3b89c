//! The overlay that says which models take part in a session.
use vstd::prelude::*;
use crate::chrome;
use crate::keys::{KeyCode, KeyEvent, KeyModifiers};
use crate::models;
use crate::models::{describe_model, model_full_id, ListPlace, ModelView, OverlayTexts};
use crate::overlay;
use crate::overlay::{matches_alt_key, matches_ctrl_char, select_list_visible_bounds, FieldReply, ItemView, ListReply, SelectItem, Status, StatusView};
use crate::pieces;
use crate::pieces::{append_rule_line, push_rows, Piece, PieceView};
use crate::screen;
use crate::screen::{fit_line, style_brand, style_hint, style_subtitle, style_success, style_title, style_warning};
use crate::session::ModelInfo;
use crate::text;
use crate::text::{cat2, cat3, cat4, cat5, copy_text, copy_texts, decimal_text, holds_text, same};

verus! {

broadcast use {crate::text::group_texts, crate::pieces::group_pieces};

/// Which models take part: all of them, or those with the identifiers of a list.
pub type Enabled = Option<Seq<Seq<char>>>;

/// Which models take part, as a mathematical value.
pub open spec fn enabled_view(ids: Option<Vec<String>>) -> Enabled {
    match ids {
        Some(list) => Some(text::texts(list@)),
        None => None,
    }
}

/// The identifiers of models.
pub open spec fn full_ids(models: Seq<ModelView>) -> Seq<Seq<char>> {
    Seq::new(models.len(), |i: int| models::full_id(models[i]))
}

/// Whether a model takes part.
pub open spec fn takes_part(enabled: Enabled, id: Seq<char>) -> bool {
    match enabled {
        Some(ids) => ids.contains(id),
        None => true,
    }
}

fn part(enabled_ids: &Option<Vec<String>>, id: &str) -> (r: bool)
    ensures
        r == takes_part(enabled_view(*enabled_ids), id@),
{
    match enabled_ids {
        Some(ids) => holds_text(ids.as_slice(), id),
        None => true,
    }
}

fn ids_of(models: &[ModelInfo]) -> (r: Vec<String>)
    ensures
        text::texts(r@) == full_ids(models::model_views(models@)),
{
    let ghost shown = full_ids(models::model_views(models@));
    let mut out: Vec<String> = Vec::new();
    let mut i: usize = 0;
    assert(shown.take(0) =~= Seq::<Seq<char>>::empty());
    while i < models.len()
        invariant
            0 <= i <= models.len(),
            shown == full_ids(models::model_views(models@)),
            text::texts(out@) == shown.take(i as int),
        decreases models.len() - i,
    {
        out.push(model_full_id(&models[i]));
        i += 1;
        assert(shown.take(i as int) =~= shown.take(i - 1).push(shown[i - 1]));
    }
    assert(shown.take(i as int) =~= shown);
    out
}

/// The first place of a text in a list.
pub open spec fn first_index(list: Seq<Seq<char>>, t: Seq<char>) -> Option<int>
    decreases list.len(),
{
    if list.len() == 0 {
        None
    } else {
        match first_index(list.drop_last(), t) {
            Some(i) => Some(i),
            None => if list.last() == t {
                Some(list.len() - 1)
            } else {
                None
            },
        }
    }
}

proof fn first_index_finds(list: Seq<Seq<char>>, t: Seq<char>)
    ensures
        match first_index(list, t) {
            Some(i) => 0 <= i < list.len() && list[i] == t && forall|j: int|
                0 <= j < i ==> #[trigger] list[j] != t,
            None => !list.contains(t),
        },
    decreases list.len(),
{
    if list.len() > 0 {
        let shorter = list.drop_last();
        first_index_finds(shorter, t);
        match first_index(shorter, t) {
            Some(i) => {
                assert forall|j: int| 0 <= j < i implies #[trigger] list[j] != t by {
                    assert(shorter[j] == list[j]);
                }
            },
            None => {
                assert forall|j: int| 0 <= j < shorter.len() implies #[trigger] list[j] != t by {
                    assert(shorter[j] == list[j]);
                    assert(shorter.contains(shorter[j]));
                }
            },
        }
    }
}

/// The first place of a text in a list.
pub fn position_of(list: &[String], t: &str) -> (r: Option<usize>)
    ensures
        (match r {
            Some(i) => Some(i as int),
            None => None,
        }) == first_index(text::texts(list@), t@),
        r is Some ==> r->0 < list@.len() && list@[r->0 as int]@ == t@,
{
    let ghost all = text::texts(list@);
    let mut found: Option<usize> = None;
    let mut i: usize = 0;
    assert(all.take(0) =~= Seq::<Seq<char>>::empty());
    while i < list.len()
        invariant
            0 <= i <= list.len(),
            all == text::texts(list@),
            (match found {
                Some(k) => Some(k as int),
                None => None,
            }) == first_index(all.take(i as int), t@),
            found is Some ==> found->0 < i && list@[found->0 as int]@ == t@,
        decreases list.len() - i,
    {
        assert(all.take(i + 1).drop_last() =~= all.take(i as int));
        if found.is_none() && same(list[i].as_str(), t) {
            found = Some(i);
        }
        i += 1;
    }
    assert(all.take(i as int) =~= all);
    found
}

/// Which models take part after one is switched: from all of them, only that one; else it is left
/// out where it took part, and added at the end where it did not.
pub open spec fn toggled(enabled: Enabled, id: Seq<char>) -> Enabled {
    match enabled {
        None => Some(seq![id]),
        Some(ids) => match first_index(ids, id) {
            Some(i) => Some(ids.remove(i)),
            None => Some(ids.push(id)),
        },
    }
}

/// Switches a model.
pub fn toggle_scoped_model(enabled_ids: Option<Vec<String>>, model_id: &str) -> (r: Option<Vec<String>>)
    ensures
        enabled_view(r) == toggled(enabled_view(enabled_ids), model_id@),
{
    match enabled_ids {
        None => {
            let mut ids: Vec<String> = Vec::new();
            ids.push(copy_text(model_id));
            assert(text::texts(ids@) =~= seq![model_id@]);
            Some(ids)
        },
        Some(list) => {
            let ghost before = text::texts(list@);
            let mut ids = list;
            match position_of(ids.as_slice(), model_id) {
                Some(i) => {
                    let _ = ids.remove(i);
                    assert(text::texts(ids@) =~= before.remove(i as int));
                },
                None => {
                    ids.push(copy_text(model_id));
                },
            }
            Some(ids)
        },
    }
}

/// Switching a model that does not take part twice changes nothing.
pub proof fn toggling_twice_restores(ids: Seq<Seq<char>>, id: Seq<char>)
    requires
        !ids.contains(id),
    ensures
        toggled(toggled(Some(ids), id), id) == Some(ids),
{
    first_index_finds(ids, id);
    let more = ids.push(id);
    first_index_finds(more, id);
    assert(more[ids.len() as int] == id);
    assert(more.contains(id));
    let k = first_index(more, id)->0;
    if k < ids.len() {
        assert(ids[k] == id);
        assert(ids.contains(id));
    }
    assert(more.remove(k) =~= ids);
}

/// Switching a model of a list without repetitions changes whether it takes part, and nothing about
/// the others.
pub proof fn toggling_switches_one(ids: Seq<Seq<char>>, id: Seq<char>, other: Seq<char>)
    requires
        ids.no_duplicates(),
    ensures
        takes_part(toggled(Some(ids), id), id) != ids.contains(id),
        other != id ==> takes_part(toggled(Some(ids), id), other) == ids.contains(other),
{
    first_index_finds(ids, id);
    match first_index(ids, id) {
        Some(i) => {
            let rest = ids.remove(i);
            assert(ids.contains(id));
            if rest.contains(id) {
                let k = choose|k: int| 0 <= k < rest.len() && rest[k] == id;
                if k < i {
                    assert(ids[k] == id);
                } else {
                    assert(ids[k + 1] == id);
                }
            }
            if other != id {
                if ids.contains(other) {
                    let k = choose|k: int| 0 <= k < ids.len() && ids[k] == other;
                    if k < i {
                        assert(rest[k] == other);
                    } else {
                        assert(rest[k - 1] == other);
                    }
                }
                if rest.contains(other) {
                    let k = choose|k: int| 0 <= k < rest.len() && rest[k] == other;
                    if k < i {
                        assert(ids[k] == other);
                    } else {
                        assert(ids[k + 1] == other);
                    }
                }
            }
        },
        None => {
            let more = ids.push(id);
            assert(more[ids.len() as int] == id);
            if other != id {
                if ids.contains(other) {
                    let k = choose|k: int| 0 <= k < ids.len() && ids[k] == other;
                    assert(more[k] == other);
                }
                if more.contains(other) {
                    let k = choose|k: int| 0 <= k < more.len() && more[k] == other;
                    assert(ids[k] == other);
                }
            }
        },
    }
}

/// The first model with an identifier.
pub open spec fn model_with_id(models: Seq<ModelView>, id: Seq<char>) -> Option<ModelView> {
    match first_index(full_ids(models), id) {
        Some(i) => Some(models[i]),
        None => None,
    }
}

/// The identifiers of the models of a provider.
pub open spec fn provider_ids(models: Seq<ModelView>, provider: Seq<char>) -> Seq<Seq<char>>
    decreases models.len(),
{
    if models.len() == 0 {
        Seq::empty()
    } else if models.last().provider == provider {
        provider_ids(models.drop_last(), provider).push(models::full_id(models.last()))
    } else {
        provider_ids(models.drop_last(), provider)
    }
}

/// Whether all texts of a list take part.
pub open spec fn all_take_part(enabled: Enabled, ids: Seq<Seq<char>>) -> bool {
    forall|i: int| 0 <= i < ids.len() ==> takes_part(enabled, #[trigger] ids[i])
}

/// A list without the texts of another.
pub open spec fn without(list: Seq<Seq<char>>, gone: Seq<Seq<char>>) -> Seq<Seq<char>>
    decreases list.len(),
{
    if list.len() == 0 {
        Seq::empty()
    } else if gone.contains(list.last()) {
        without(list.drop_last(), gone)
    } else {
        without(list.drop_last(), gone).push(list.last())
    }
}

/// A list with the texts of another that it lacks at the end.
pub open spec fn with_all(list: Seq<Seq<char>>, more: Seq<Seq<char>>) -> Seq<Seq<char>>
    decreases more.len(),
{
    if more.len() == 0 {
        list
    } else {
        let before = with_all(list, more.drop_last());
        if before.contains(more.last()) {
            before
        } else {
            before.push(more.last())
        }
    }
}

/// Which models take part after those of the selected model's provider are switched: all of them are
/// left out where all took part, else those that are missing are added. Where every model takes part
/// then, no list is kept.
pub open spec fn provider_toggled(models: Seq<ModelView>, enabled: Enabled, selected: Seq<char>) -> Enabled {
    match model_with_id(models, selected) {
        None => enabled,
        Some(m) => {
            let ids = provider_ids(models, m.provider);
            if all_take_part(enabled, ids) {
                Some(
                    without(
                        match enabled {
                            Some(list) => list,
                            None => full_ids(models),
                        },
                        ids,
                    ),
                )
            } else {
                let next = with_all(
                    match enabled {
                        Some(list) => list,
                        None => Seq::empty(),
                    },
                    ids,
                );
                if next.len() == models.len() {
                    None
                } else {
                    Some(next)
                }
            }
        },
    }
}

fn ids_of_provider(models: &[ModelInfo], provider: &str) -> (r: Vec<String>)
    ensures
        text::texts(r@) == provider_ids(models::model_views(models@), provider@),
{
    let ghost all = models::model_views(models@);
    let mut out: Vec<String> = Vec::new();
    let mut i: usize = 0;
    assert(all.take(0) =~= Seq::<ModelView>::empty());
    while i < models.len()
        invariant
            0 <= i <= models.len(),
            all == models::model_views(models@),
            text::texts(out@) == provider_ids(all.take(i as int), provider@),
        decreases models.len() - i,
    {
        assert(all.take(i + 1).drop_last() =~= all.take(i as int));
        if same(models[i].provider.as_str(), provider) {
            out.push(model_full_id(&models[i]));
        }
        i += 1;
    }
    assert(all.take(i as int) =~= all);
    out
}

fn all_part(enabled_ids: &Option<Vec<String>>, ids: &[String]) -> (r: bool)
    ensures
        r == all_take_part(enabled_view(*enabled_ids), text::texts(ids@)),
{
    let mut i: usize = 0;
    while i < ids.len()
        invariant
            0 <= i <= ids.len(),
            forall|j: int|
                0 <= j < i ==> takes_part(
                    enabled_view(*enabled_ids),
                    #[trigger] text::texts(ids@)[j],
                ),
        decreases ids.len() - i,
    {
        if !part(enabled_ids, ids[i].as_str()) {
            assert(!takes_part(enabled_view(*enabled_ids), text::texts(ids@)[i as int]));
            return false;
        }
        i += 1;
    }
    true
}

fn remove_all(list: Vec<String>, gone: &[String]) -> (r: Vec<String>)
    ensures
        text::texts(r@) == without(text::texts(list@), text::texts(gone@)),
{
    let ghost all = text::texts(list@);
    let mut out: Vec<String> = Vec::new();
    let mut i: usize = 0;
    assert(all.take(0) =~= Seq::<Seq<char>>::empty());
    while i < list.len()
        invariant
            0 <= i <= list.len(),
            all == text::texts(list@),
            text::texts(out@) == without(all.take(i as int), text::texts(gone@)),
        decreases list.len() - i,
    {
        assert(all.take(i + 1).drop_last() =~= all.take(i as int));
        if !holds_text(gone, list[i].as_str()) {
            out.push(copy_text(list[i].as_str()));
        }
        i += 1;
    }
    assert(all.take(i as int) =~= all);
    out
}

fn add_all(list: Vec<String>, more: &[String]) -> (r: Vec<String>)
    ensures
        text::texts(r@) == with_all(text::texts(list@), text::texts(more@)),
{
    let ghost all = text::texts(more@);
    let ghost first = text::texts(list@);
    let mut out = list;
    let mut i: usize = 0;
    assert(all.take(0) =~= Seq::<Seq<char>>::empty());
    while i < more.len()
        invariant
            0 <= i <= more.len(),
            all == text::texts(more@),
            text::texts(out@) == with_all(first, all.take(i as int)),
        decreases more.len() - i,
    {
        assert(all.take(i + 1).drop_last() =~= all.take(i as int));
        if !holds_text(out.as_slice(), more[i].as_str()) {
            out.push(copy_text(more[i].as_str()));
        }
        i += 1;
    }
    assert(all.take(i as int) =~= all);
    out
}

/// Switches the models of the selected model's provider.
pub fn toggle_scoped_models_provider(
    models: &[ModelInfo],
    enabled_ids: Option<Vec<String>>,
    selected_value: &str,
) -> (r: Option<Vec<String>>)
    ensures
        enabled_view(r) == provider_toggled(
            models::model_views(models@),
            enabled_view(enabled_ids),
            selected_value@,
        ),
{
    let all_ids = ids_of(models);
    let index = match position_of(all_ids.as_slice(), selected_value) {
        Some(i) => i,
        None => {
            return enabled_ids;
        },
    };
    assert(full_ids(models::model_views(models@)).len() == models@.len());
    let ids = ids_of_provider(models, models[index].provider.as_str());
    if all_part(&enabled_ids, ids.as_slice()) {
        let list = match enabled_ids {
            Some(list) => list,
            None => all_ids,
        };
        Some(remove_all(list, ids.as_slice()))
    } else {
        let list = match enabled_ids {
            Some(list) => list,
            None => Vec::new(),
        };
        let next = add_all(list, ids.as_slice());
        assert(text::texts(next@).len() == next@.len());
        if next.len() == models.len() {
            None
        } else {
            Some(next)
        }
    }
}

proof fn with_all_holds(list: Seq<Seq<char>>, more: Seq<Seq<char>>)
    ensures
        forall|i: int| 0 <= i < more.len() ==> with_all(list, more).contains(#[trigger] more[i]),
    decreases more.len(),
{
    if more.len() > 0 {
        let fewer = more.drop_last();
        let before = with_all(list, fewer);
        let after = with_all(list, more);
        with_all_holds(list, fewer);
        assert forall|i: int| 0 <= i < more.len() implies after.contains(#[trigger] more[i]) by {
            if i < fewer.len() {
                assert(before.contains(fewer[i]));
                let k = choose|k: int| 0 <= k < before.len() && before[k] == fewer[i];
                assert(after[k] == more[i]);
            } else if !before.contains(more.last()) {
                assert(after[before.len() as int] == more[i]);
            }
        }
    }
}

proof fn without_lacks(list: Seq<Seq<char>>, gone: Seq<Seq<char>>)
    ensures
        forall|i: int| 0 <= i < gone.len() ==> !without(list, gone).contains(#[trigger] gone[i]),
    decreases list.len(),
{
    if list.len() > 0 {
        without_lacks(list.drop_last(), gone);
        let before = without(list.drop_last(), gone);
        let after = without(list, gone);
        assert forall|i: int| 0 <= i < gone.len() implies !after.contains(#[trigger] gone[i]) by {
            assert(gone.contains(gone[i]));
            if after.contains(gone[i]) {
                let k = choose|k: int| 0 <= k < after.len() && after[k] == gone[i];
                if k < before.len() {
                    assert(before[k] == gone[i]);
                    assert(before.contains(gone[i]));
                }
            }
        }
    }
}

/// After the models of a provider are switched, all of them take part, or none does.
pub proof fn provider_toggle_is_uniform(models: Seq<ModelView>, enabled: Enabled, selected: Seq<char>)
    requires
        model_with_id(models, selected) is Some,
    ensures
        ({
            let ids = provider_ids(models, model_with_id(models, selected)->0.provider);
            let after = provider_toggled(models, enabled, selected);
            &&& !all_take_part(enabled, ids) ==> all_take_part(after, ids)
            &&& all_take_part(enabled, ids) ==> forall|i: int|
                0 <= i < ids.len() ==> !takes_part(after, #[trigger] ids[i])
        }),
{
    let ids = provider_ids(models, model_with_id(models, selected)->0.provider);
    if all_take_part(enabled, ids) {
        without_lacks(
            match enabled {
                Some(list) => list,
                None => full_ids(models),
            },
            ids,
        );
    } else {
        with_all_holds(
            match enabled {
                Some(list) => list,
                None => Seq::empty(),
            },
            ids,
        );
    }
}

/// Two places of a list exchanged.
pub open spec fn swapped(list: Seq<Seq<char>>, i: int, j: int) -> Seq<Seq<char>> {
    list.update(i, list[j]).update(j, list[i])
}

/// The list after the selected model has changed places with the one at a distance from it, where there
/// is one.
pub open spec fn moved(
    models: Seq<ModelView>,
    enabled: Enabled,
    selected: Seq<char>,
    delta: int,
) -> Option<Seq<Seq<char>>> {
    let list = match enabled {
        Some(ids) => ids,
        None => full_ids(models),
    };
    match first_index(list, selected) {
        Some(i) => if 0 <= i + delta < list.len() {
            Some(swapped(list, i, i + delta))
        } else {
            None
        },
        None => None,
    }
}

/// An optional list, as a mathematical value.
pub open spec fn opt_list(list: Option<Vec<String>>) -> Option<Seq<Seq<char>>> {
    match list {
        Some(l) => Some(text::texts(l@)),
        None => None,
    }
}

/// Lets the selected model change places with the one at a distance from it, where there is one.
pub fn move_scoped_model_selection(
    models: &[ModelInfo],
    enabled_ids: &Option<Vec<String>>,
    selected_value: &str,
    delta: isize,
) -> (r: Option<Vec<String>>)
    ensures
        opt_list(r) == moved(
            models::model_views(models@),
            enabled_view(*enabled_ids),
            selected_value@,
            delta as int,
        ),
{
    let list = match enabled_ids {
        Some(ids) => copy_texts(ids.as_slice()),
        None => ids_of(models),
    };
    let ghost all = text::texts(list@);
    let len: usize = list.len();
    let i = match position_of(list.as_slice(), selected_value) {
        Some(i) => i,
        None => {
            return None;
        },
    };
    let place: i128 = i as i128 + delta as i128;
    if place < 0 || place >= len as i128 {
        return None;
    }
    let j: usize = place as usize;
    let mut next = list;
    let a = copy_text(next[i].as_str());
    let b = copy_text(next[j].as_str());
    next.set(i, b);
    next.set(j, a);
    assert(text::texts(next@) =~= swapped(all, i as int, j as int));
    Some(next)
}

/// Moving a model of a list without repetitions some way and the same way back changes nothing.
pub proof fn moving_there_and_back_restores(
    models: Seq<ModelView>,
    ids: Seq<Seq<char>>,
    selected: Seq<char>,
    delta: int,
)
    requires
        ids.no_duplicates(),
        moved(models, Some(ids), selected, delta) is Some,
    ensures
        moved(models, moved(models, Some(ids), selected, delta), selected, -delta) == Some(ids),
{
    first_index_finds(ids, selected);
    let i = first_index(ids, selected)->0;
    let j = i + delta;
    let next = swapped(ids, i, j);
    first_index_finds(next, selected);
    assert(next[j] == selected);
    assert(next.contains(selected));
    let k = first_index(next, selected)->0;
    if k != j {
        if k == i {
            assert(ids[j] == selected);
        } else {
            assert(ids[k] == selected);
        }
    }
    assert(swapped(next, j, i) =~= ids);
}

/// A model as an item of the list.
pub open spec fn scoped_item(m: ModelView, enabled: Enabled) -> ItemView {
    ItemView {
        value: models::full_id(m),
        label: m.id + " ["@ + m.provider + "]"@ + (if takes_part(enabled, models::full_id(m)) {
            " ✓"@
        } else {
            " ✗"@
        }),
        description: Some(m.name),
    }
}

/// Models as items of the list.
pub open spec fn scoped_items(models: Seq<ModelView>, enabled: Enabled) -> Seq<ItemView> {
    Seq::new(models.len(), |i: int| scoped_item(models[i], enabled))
}

/// The models as items of the list.
pub fn build_scoped_model_items(models: &[ModelInfo], enabled_ids: &Option<Vec<String>>) -> (r: Vec<
    SelectItem,
>)
    ensures
        overlay::items(r@) == scoped_items(
            models::model_views(models@),
            enabled_view(*enabled_ids),
        ),
{
    let ghost all = models::model_views(models@);
    let ghost on = enabled_view(*enabled_ids);
    let ghost shown = scoped_items(all, on);
    let mut items: Vec<SelectItem> = Vec::new();
    let mut i: usize = 0;
    assert(overlay::items(items@) =~= shown.take(0));
    while i < models.len()
        invariant
            0 <= i <= models.len(),
            all == models::model_views(models@),
            on == enabled_view(*enabled_ids),
            shown == scoped_items(all, on),
            overlay::items(items@) == shown.take(i as int),
        decreases models.len() - i,
    {
        let m = &models[i];
        let id = model_full_id(m);
        let mark = if part(enabled_ids, id.as_str()) {
            " ✓"
        } else {
            " ✗"
        };
        let item = SelectItem {
            value: id,
            label: cat5(m.id.as_str(), " [", m.provider.as_str(), "]", mark),
            description: Some(copy_text(m.name.as_str())),
        };
        assert(item@ == shown[i as int]);
        let ghost before = items@;
        items.push(item);
        i += 1;
        assert(overlay::items(items@) =~= overlay::items(before).push(shown[i - 1]));
        assert(overlay::items(items@) =~= shown.take(i as int));
    }
    assert(shown.take(i as int) =~= shown);
    items
}

/// A row of the list.
pub open spec fn scoped_row(m: ModelView, enabled: Enabled, selected: bool, width: nat) -> Seq<char> {
    screen::fitted(
        models::row_mark(selected) + models::if_selected(selected, m.id) + " "@ + screen::hint(
            "["@ + m.provider + "]"@,
        ) + (if enabled is None {
            ""@
        } else if takes_part(enabled, models::full_id(m)) {
            screen::success(" ✓"@)
        } else {
            screen::hint(" ✗"@)
        }),
        width,
    )
}

/// The rows of the list from one place up to another.
pub open spec fn scoped_rows_upto(
    models: Seq<ModelView>,
    filtered: Seq<usize>,
    enabled: Enabled,
    selected: nat,
    from: int,
    to: int,
    width: nat,
) -> Seq<Seq<char>>
    decreases to - from,
{
    if to <= from {
        Seq::empty()
    } else {
        let above = scoped_rows_upto(models, filtered, enabled, selected, from, to - 1, width);
        match models::filtered_model(models, filtered, to - 1) {
            Some(m) => above.push(scoped_row(m, enabled, to - 1 == selected, width)),
            None => above,
        }
    }
}

/// The rows of the list, and the name of the selected model.
pub open spec fn scoped_rows(models: Seq<ModelView>, enabled: Enabled, place: ListPlace, width: nat) -> Seq<
    Seq<char>,
> {
    let count = place.filtered@.len();
    if count == 0 {
        seq![screen::fitted(screen::hint("  No matching models"@), width)]
    } else {
        let (start, end) = overlay::visible_bounds(
            count,
            place.selected as nat,
            place.max_visible as nat,
        );
        scoped_rows_upto(
            models,
            place.filtered@,
            enabled,
            place.selected as nat,
            start as int,
            end as int,
            width,
        ) + chrome::only_if(
            start > 0 || end < count,
            models::position_note(place.selected as nat, count, width),
        ) + (match models::selected_name(models, place) {
            Some(name) => seq![
                ""@,
                screen::fitted(screen::hint("  Model Name: "@ + name), width),
            ],
            None => Seq::empty(),
        })
    }
}

fn row_of_scoped(m: &ModelInfo, enabled_ids: &Option<Vec<String>>, selected: bool, width: u16) -> (r:
    String)
    ensures
        r@ == scoped_row(
            models::model_view(*m),
            enabled_view(*enabled_ids),
            selected,
            width as nat,
        ),
{
    let prefix = models::mark(selected);
    let shown = if selected {
        style_brand(m.id.as_str())
    } else {
        copy_text(m.id.as_str())
    };
    let badge = style_hint(cat3("[", m.provider.as_str(), "]").as_str());
    let id = model_full_id(m);
    let status = if enabled_ids.is_none() {
        copy_text("")
    } else if part(enabled_ids, id.as_str()) {
        style_success(" ✓")
    } else {
        style_hint(" ✗")
    };
    fit_line(
        cat5(prefix.as_str(), shown.as_str(), " ", badge.as_str(), status.as_str()).as_str(),
        width,
    )
}

/// The rows of the list, and the name of the selected model.
pub fn append_scoped_models_overlay_rows(
    models: &[ModelInfo],
    enabled_ids: &Option<Vec<String>>,
    place: &ListPlace,
    width: u16,
) -> (r: Vec<String>)
    requires
        place.selected < usize::MAX,
    ensures
        text::texts(r@) == scoped_rows(
            models::model_views(models@),
            enabled_view(*enabled_ids),
            *place,
            width as nat,
        ),
{
    let ghost views = models::model_views(models@);
    let ghost on = enabled_view(*enabled_ids);
    let mut out: Vec<String> = Vec::new();
    let count: usize = place.filtered.len();
    if count == 0 {
        out.push(fit_line(style_hint("  No matching models").as_str(), width));
        assert(text::texts(out@) =~= scoped_rows(views, on, *place, width as nat));
        return out;
    }
    let (start, end) = select_list_visible_bounds(count, place.selected, place.max_visible);
    if start < end {
        let mut i: usize = start;
        while i < end
            invariant
                start <= i <= end,
                views == models::model_views(models@),
                on == enabled_view(*enabled_ids),
                text::texts(out@) == scoped_rows_upto(
                    views,
                    place.filtered@,
                    on,
                    place.selected as nat,
                    start as int,
                    i as int,
                    width as nat,
                ),
            decreases end - i,
        {
            match models::model_at(models, place.filtered.as_slice(), i) {
                Some(m) => {
                    out.push(row_of_scoped(m, enabled_ids, i == place.selected, width));
                },
                None => {},
            }
            i += 1;
        }
    }
    if start > 0 || end < count {
        out.push(models::note_position(place.selected, count, width));
    }
    match models::model_at(models, place.filtered.as_slice(), place.selected) {
        Some(m) => {
            out.push(copy_text(""));
            out.push(
                fit_line(
                    style_hint(cat2("  Model Name: ", m.name.as_str()).as_str()).as_str(),
                    width,
                ),
            );
        },
        None => {},
    }
    assert(text::texts(out@) =~= scoped_rows(views, on, *place, width as nat));
    out
}

/// How many models take part, out of how many.
pub open spec fn count_text(enabled: Enabled, total: nat, all: Seq<char>) -> Seq<char> {
    match enabled {
        Some(ids) => text::decimal(ids.len()) + "/"@ + text::decimal(total) + " enabled"@,
        None => all,
    }
}

fn count_enabled(enabled_ids: &Option<Vec<String>>, total: usize, all: String) -> (r: String)
    ensures
        r@ == count_text(enabled_view(*enabled_ids), total as nat, all@),
{
    match enabled_ids {
        Some(ids) => {
            let n: usize = ids.len();
            assert(text::texts(ids@).len() == n);
            cat4(
                decimal_text(n as u64).as_str(),
                "/",
                decimal_text(total as u64).as_str(),
                " enabled",
            )
        },
        None => all,
    }
}

/// The keys of the overlay and how many models take part.
pub open spec fn scoped_footer(enabled: Enabled, total: nat, dirty: bool) -> Seq<char> {
    let base =
        "  Enter toggle · Ctrl+A all · Ctrl+X clear · Ctrl+P provider · Alt+Up/Down reorder · Ctrl+S save · "@
        + count_text(enabled, total, "all enabled"@);
    if dirty {
        base + " "@ + screen::warning("(unsaved)"@)
    } else {
        base
    }
}

/// The keys of the overlay and how many models take part.
pub fn scoped_models_footer_text(enabled_ids: &Option<Vec<String>>, total: usize, dirty: bool) -> (r:
    String)
    ensures
        r@ == scoped_footer(enabled_view(*enabled_ids), total as nat, dirty),
{
    let base = cat2(
        "  Enter toggle · Ctrl+A all · Ctrl+X clear · Ctrl+P provider · Alt+Up/Down reorder · Ctrl+S save · ",
        count_enabled(enabled_ids, total, copy_text("all enabled")).as_str(),
    );
    if dirty {
        cat3(base.as_str(), " ", style_warning("(unsaved)").as_str())
    } else {
        base
    }
}

/// The overlay that says which models take part.
pub open spec fn scoped_overlay(
    models: Seq<ModelView>,
    enabled: Enabled,
    dirty: bool,
    place: ListPlace,
    width: nat,
) -> Seq<PieceView> {
    pieces::rule(width) + seq![
        PieceView::Blank,
        PieceView::Flow(screen::title("Model Configuration"@)),
        PieceView::Flow(screen::subtitle("Session-only. Ctrl+S to save to settings."@)),
        PieceView::Blank,
        PieceView::Field(false),
        PieceView::Blank,
    ] + pieces::rows(scoped_rows(models, enabled, place, width)) + seq![
        PieceView::Blank,
        PieceView::Flow(screen::hint(scoped_footer(enabled, models.len(), dirty))),
        PieceView::Blank,
    ] + pieces::rule(width)
}

/// The overlay that says which models take part.
pub fn render_scoped_models_overlay(
    models: &[ModelInfo],
    enabled_ids: &Option<Vec<String>>,
    dirty: bool,
    place: &ListPlace,
    width: u16,
) -> (r: Vec<Piece>)
    requires
        place.selected < usize::MAX,
    ensures
        pieces::views(r@) == scoped_overlay(
            models::model_views(models@),
            enabled_view(*enabled_ids),
            dirty,
            *place,
            width as nat,
        ),
{
    let mut out: Vec<Piece> = Vec::new();
    append_rule_line(&mut out, width);
    out.push(Piece::Blank);
    out.push(Piece::Flow(style_title("Model Configuration")));
    out.push(Piece::Flow(style_subtitle("Session-only. Ctrl+S to save to settings.")));
    out.push(Piece::Blank);
    out.push(Piece::Field(false));
    out.push(Piece::Blank);
    push_rows(&mut out, append_scoped_models_overlay_rows(models, enabled_ids, place, width));
    out.push(Piece::Blank);
    out.push(
        Piece::Flow(
            style_hint(scoped_models_footer_text(enabled_ids, models.len(), dirty).as_str()),
        ),
    );
    out.push(Piece::Blank);
    append_rule_line(&mut out, width);
    assert(pieces::views(out@) =~= scoped_overlay(
        models::model_views(models@),
        enabled_view(*enabled_ids),
        dirty,
        *place,
        width as nat,
    ));
    out
}

/// What is said of the selected model.
pub open spec fn scoped_detail(models: Seq<ModelView>, selected: Option<Seq<char>>) -> Option<Seq<char>> {
    match selected {
        Some(value) => match model_with_id(models, value) {
            Some(m) => Some("Model Name: "@ + models::ability(m)),
            None => None,
        },
        None => None,
    }
}

/// The texts around the list: how many models take part and what the selected one can do.
pub fn scoped_models_overlay_texts(
    models: &[ModelInfo],
    enabled_ids: &Option<Vec<String>>,
    dirty: bool,
    selected_value: Option<&str>,
) -> (r: OverlayTexts)
    ensures
        r.title@ == "Scoped Models"@,
        r.subtitle@ == "Session-only model cycle filter · "@ + count_text(
            enabled_view(*enabled_ids),
            models@.len(),
            "all "@ + text::decimal(models@.len()) + " enabled"@,
        ) + (if dirty {
            " · unsaved"@
        } else {
            ""@
        }),
        text::opt_text(r.detail) == scoped_detail(
            models::model_views(models@),
            chrome::opt_str(selected_value),
        ),
        r.hint@
            == "Enter toggles · Ctrl+A all · Ctrl+X clear · Ctrl+P provider · Alt+Up/Down reorder · Ctrl+S save\nSearch filters id/provider/name · Esc cancels"@,
{
    let all = cat3("all ", decimal_text(models.len() as u64).as_str(), " enabled");
    let counts = count_enabled(enabled_ids, models.len(), all);
    let detail = match selected_value {
        Some(value) => {
            let ids = ids_of(models);
            assert(full_ids(models::model_views(models@)).len() == models@.len());
            match position_of(ids.as_slice(), value) {
                Some(i) => Some(cat2("Model Name: ", describe_model(&models[i]).as_str())),
                None => None,
            }
        },
        None => None,
    };
    OverlayTexts {
        title: copy_text("Scoped Models"),
        subtitle: cat3(
            "Session-only model cycle filter · ",
            counts.as_str(),
            if dirty {
                " · unsaved"
            } else {
                ""
            },
        ),
        detail,
        hint: copy_text(
            "Enter toggles · Ctrl+A all · Ctrl+X clear · Ctrl+P provider · Alt+Up/Down reorder · Ctrl+S save\nSearch filters id/provider/name · Esc cancels",
        ),
    }
}

/// What a key press in the overlay asks for.
#[derive(Clone, Copy, Debug, PartialEq, Eq, Structural)]
pub enum ScopedAction {
    /// Nothing.
    Stay,
    /// The list of models has changed: hand it to the session and show it again.
    Apply,
    /// Keep the list in the settings.
    Save,
    /// Drop the list from the settings.
    Forget,
    /// The key press goes to the list.
    ToList,
    /// The key press goes to the field.
    ToField,
    /// The list is to be filtered by what the field holds.
    Filter,
    /// The texts around the list are to be renewed.
    Renew,
    /// The overlay closes.
    Close,
}

/// What a key press in the overlay asks for, which models take part then, and what is said.
pub struct ScopedStep {
    pub action: ScopedAction,
    pub enabled_ids: Option<Vec<String>>,
    pub dirty: bool,
    pub status: Status,
}

/// What a key press in the overlay asks for, as a mathematical value.
pub struct ScopedStepView {
    pub action: ScopedAction,
    pub enabled: Enabled,
    pub dirty: bool,
    pub status: StatusView,
}

impl View for ScopedStep {
    type V = ScopedStepView;

    open spec fn view(&self) -> ScopedStepView {
        ScopedStepView {
            action: self.action,
            enabled: enabled_view(self.enabled_ids),
            dirty: self.dirty,
            status: self.status@,
        }
    }
}

/// A step that changes which models take part.
pub open spec fn applied(enabled: Enabled, message: Seq<char>) -> ScopedStepView {
    ScopedStepView {
        action: ScopedAction::Apply,
        enabled,
        dirty: true,
        status: StatusView::Say(message),
    }
}

/// Whether a key press moves the selected model.
pub open spec fn moves(event: KeyEvent) -> bool {
    (event.code is Up || event.code is Down) && event.modifiers == KeyModifiers::alt_only()
}

/// What a key press asks for.
pub open spec fn scoped_step(
    models: Seq<ModelView>,
    enabled: Enabled,
    dirty: bool,
    selected: Option<Seq<char>>,
    event: KeyEvent,
) -> ScopedStepView {
    let stay = ScopedStepView { action: ScopedAction::Stay, enabled, dirty, status: StatusView::Keep };
    if overlay::is_ctrl(event, 'a') {
        applied(None, "Enabled all models for this session."@)
    } else if overlay::is_ctrl(event, 'x') {
        applied(Some(Seq::empty()), "Cleared all scoped models for this session."@)
    } else if overlay::is_ctrl(event, 'p') {
        match selected {
            Some(value) => applied(
                provider_toggled(models, enabled, value),
                "Toggled provider models."@,
            ),
            None => stay,
        }
    } else if overlay::is_ctrl(event, 's') {
        ScopedStepView {
            action: if enabled is Some {
                ScopedAction::Save
            } else {
                ScopedAction::Forget
            },
            enabled,
            dirty: false,
            status: StatusView::Keep,
        }
    } else if moves(event) {
        match selected {
            Some(value) => match moved(
                models,
                enabled,
                value,
                if event.code is Up {
                    -1
                } else {
                    1
                },
            ) {
                Some(list) => applied(Some(list), "Reordered scoped models."@),
                None => stay,
            },
            None => stay,
        }
    } else {
        ScopedStepView {
            action: match event.code {
                KeyCode::Up | KeyCode::Down | KeyCode::Enter | KeyCode::Escape =>
                    ScopedAction::ToList,
                _ => ScopedAction::ToField,
            },
            ..stay
        }
    }
}

fn apply(enabled_ids: Option<Vec<String>>, message: &str) -> (r: ScopedStep)
    ensures
        r@ == applied(enabled_view(enabled_ids), message@),
{
    ScopedStep {
        action: ScopedAction::Apply,
        enabled_ids,
        dirty: true,
        status: overlay::say(message),
    }
}

/// What a key press asks for: control with A, X, P and S changes or keeps the list, alt with an
/// arrow moves the selected model, and the rest goes to the list or the field.
pub fn scoped_models_key(
    models: &[ModelInfo],
    enabled_ids: Option<Vec<String>>,
    dirty: bool,
    selected_value: Option<&str>,
    event: &KeyEvent,
) -> (r: ScopedStep)
    ensures
        r@ == scoped_step(
            models::model_views(models@),
            enabled_view(enabled_ids),
            dirty,
            chrome::opt_str(selected_value),
            *event,
        ),
{
    if matches_ctrl_char(event, 'a') {
        return apply(None, "Enabled all models for this session.");
    }
    if matches_ctrl_char(event, 'x') {
        let none: Vec<String> = Vec::new();
        return apply(Some(none), "Cleared all scoped models for this session.");
    }
    if matches_ctrl_char(event, 'p') {
        return match selected_value {
            Some(value) => apply(
                toggle_scoped_models_provider(models, enabled_ids, value),
                "Toggled provider models.",
            ),
            None => ScopedStep {
                action: ScopedAction::Stay,
                enabled_ids,
                dirty,
                status: Status::Keep,
            },
        };
    }
    if matches_ctrl_char(event, 's') {
        let action = if enabled_ids.is_some() {
            ScopedAction::Save
        } else {
            ScopedAction::Forget
        };
        return ScopedStep { action, enabled_ids, dirty: false, status: Status::Keep };
    }
    let up = matches_alt_key(event, &KeyCode::Up);
    let down = matches_alt_key(event, &KeyCode::Down);
    if up || down {
        if let Some(value) = selected_value {
            let delta: isize = if up {
                -1
            } else {
                1
            };
            if let Some(list) = move_scoped_model_selection(models, &enabled_ids, value, delta) {
                return apply(Some(list), "Reordered scoped models.");
            }
        }
        return ScopedStep {
            action: ScopedAction::Stay,
            enabled_ids,
            dirty,
            status: Status::Keep,
        };
    }
    let action = match event.code {
        KeyCode::Up | KeyCode::Down | KeyCode::Enter | KeyCode::Escape => ScopedAction::ToList,
        _ => ScopedAction::ToField,
    };
    ScopedStep { action, enabled_ids, dirty, status: Status::Keep }
}

/// What the reply of the list or the field asks for.
pub open spec fn scoped_after(enabled: Enabled, dirty: bool, event: overlay::SearchEventView, renew: bool) -> ScopedStepView {
    let stay = ScopedStepView { action: ScopedAction::Stay, enabled, dirty, status: StatusView::Keep };
    match event {
        overlay::SearchEventView::Continue => if renew {
            ScopedStepView { action: ScopedAction::Renew, ..stay }
        } else {
            stay
        },
        overlay::SearchEventView::Filter => ScopedStepView { action: ScopedAction::Filter, ..stay },
        overlay::SearchEventView::Cancelled => ScopedStepView {
            action: ScopedAction::Close,
            status: StatusView::Say("Selection cancelled."@),
            ..stay
        },
        overlay::SearchEventView::Selected(value) => applied(
            toggled(enabled, value),
            "Toggled "@ + value + "."@,
        ),
    }
}

fn after(enabled_ids: Option<Vec<String>>, dirty: bool, event: overlay::SearchOverlayEvent, renew: bool) -> (r:
    ScopedStep)
    ensures
        r@ == scoped_after(enabled_view(enabled_ids), dirty, event@, renew),
{
    match event {
        overlay::SearchOverlayEvent::Continue => {
            let action = if renew {
                ScopedAction::Renew
            } else {
                ScopedAction::Stay
            };
            ScopedStep { action, enabled_ids, dirty, status: Status::Keep }
        },
        overlay::SearchOverlayEvent::Filter => ScopedStep {
            action: ScopedAction::Filter,
            enabled_ids,
            dirty,
            status: Status::Keep,
        },
        overlay::SearchOverlayEvent::Cancelled => ScopedStep {
            action: ScopedAction::Close,
            enabled_ids,
            dirty,
            status: overlay::say("Selection cancelled."),
        },
        overlay::SearchOverlayEvent::Selected(value) => {
            let message = cat3("Toggled ", value.as_str(), ".");
            apply(toggle_scoped_model(enabled_ids, value.as_str()), message.as_str())
        },
    }
}

/// What the reply of the list asks for: a chosen model is switched.
pub fn scoped_models_list_reply(enabled_ids: Option<Vec<String>>, dirty: bool, reply: ListReply) -> (r:
    ScopedStep)
    ensures
        r@ == scoped_after(
            enabled_view(enabled_ids),
            dirty,
            overlay::list_event(reply),
            reply is Moved,
        ),
{
    let renew = matches!(reply, ListReply::Moved);
    after(enabled_ids, dirty, overlay::event_of_list(reply), renew)
}

/// What the reply of the field asks for: what is entered switches the selected model.
pub fn scoped_models_field_reply(
    enabled_ids: Option<Vec<String>>,
    dirty: bool,
    reply: FieldReply,
    selected_value: Option<&str>,
) -> (r: ScopedStep)
    ensures
        r@ == scoped_after(
            enabled_view(enabled_ids),
            dirty,
            overlay::field_event(reply, chrome::opt_str(selected_value)),
            false,
        ),
{
    after(enabled_ids, dirty, overlay::event_of_field(reply, selected_value), false)
}

/// What is said once the list has been kept in the settings.
pub fn saved_status(saved: usize) -> (r: String)
    ensures
        r@ == "Saved "@ + text::decimal(saved as nat) + " scoped model pattern(s)."@,
{
    cat3("Saved ", decimal_text(saved as u64).as_str(), " scoped model pattern(s).")
}

/// What is said once the list has been dropped from the settings.
pub fn forgotten_status() -> (r: &'static str)
    ensures
        r@ == "Cleared persisted scoped model filter. All models enabled."@,
{
    "Cleared persisted scoped model filter. All models enabled."
}

/// Moving a model swaps it with the one it passes; the others stay where they are.
pub proof fn moving_passes_one(
    models: Seq<ModelView>,
    ids: Seq<Seq<char>>,
    i: int,
    delta: int,
    k: int,
)
    requires
        ids.no_duplicates(),
        0 <= i < ids.len(),
        0 <= i + delta < ids.len(),
        0 <= k < ids.len(),
    ensures
        moved(models, Some(ids), ids[i], delta) matches Some(after) && after.len() == ids.len()
            && after[i + delta] == ids[i] && after[i] == ids[i + delta] && (k != i && k != i + delta
            ==> after[k] == ids[k]),
{
    found_at(ids, i);
}

proof fn found_at(ids: Seq<Seq<char>>, i: int)
    requires
        ids.no_duplicates(),
        0 <= i < ids.len(),
    ensures
        first_index(ids, ids[i]) == Some(i),
    decreases ids.len(),
{
    let rest = ids.drop_last();
    if i < rest.len() {
        assert(rest[i] == ids[i]);
        assert(rest.no_duplicates());
        found_at(rest, i);
    } else {
        not_found(rest, ids[i]);
    }
}

proof fn not_found(ids: Seq<Seq<char>>, t: Seq<char>)
    requires
        forall|k: int| 0 <= k < ids.len() ==> #[trigger] ids[k] != t,
    ensures
        first_index(ids, t) is None,
    decreases ids.len(),
{
    if ids.len() > 0 {
        assert(ids[ids.len() - 1] != t);
        assert forall|k: int| 0 <= k < ids.drop_last().len() implies #[trigger] ids.drop_last()[k]
            != t by {
            assert(ids[k] != t);
        }
        not_found(ids.drop_last(), t);
    }
}

/// Nothing moves past an end of the list.
pub proof fn nothing_moves_past_the_ends(
    models: Seq<ModelView>,
    ids: Seq<Seq<char>>,
    i: int,
    delta: int,
)
    requires
        ids.no_duplicates(),
        0 <= i < ids.len(),
        !(0 <= i + delta < ids.len()),
    ensures
        moved(models, Some(ids), ids[i], delta) is None,
{
    found_at(ids, i);
}

proof fn without_keeps(list: Seq<Seq<char>>, gone: Seq<Seq<char>>, id: Seq<char>)
    ensures
        without(list, gone).contains(id) <==> list.contains(id) && !gone.contains(id),
    decreases list.len(),
{
    if list.len() > 0 {
        let rest = list.drop_last();
        without_keeps(rest, gone, id);
        assert(list =~= rest.push(list.last()));
        pushed_contains(rest, list.last(), id);
        pushed_contains(without(rest, gone), list.last(), id);
    }
}

proof fn with_all_keeps(list: Seq<Seq<char>>, more: Seq<Seq<char>>, id: Seq<char>)
    ensures
        with_all(list, more).contains(id) <==> list.contains(id) || more.contains(id),
    decreases more.len(),
{
    if more.len() > 0 {
        let rest = more.drop_last();
        with_all_keeps(list, rest, id);
        assert(more =~= rest.push(more.last()));
        pushed_contains(rest, more.last(), id);
        pushed_contains(with_all(list, rest), more.last(), id);
    }
}

proof fn pushed_contains(list: Seq<Seq<char>>, last: Seq<char>, id: Seq<char>)
    ensures
        list.push(last).contains(id) <==> list.contains(id) || last == id,
{
    let all = list.push(last);
    if list.contains(id) {
        let k = choose|k: int| 0 <= k < list.len() && list[k] == id;
        assert(all[k] == id);
    }
    if last == id {
        assert(all[list.len() as int] == id);
    }
    if all.contains(id) {
        let k = choose|k: int| 0 <= k < all.len() && all[k] == id;
        if k < list.len() {
            assert(list[k] == id);
        }
    }
}

/// Toggling the models of a provider leaves the other models as they were.
pub proof fn provider_toggle_spares_others(
    models: Seq<ModelView>,
    ids: Seq<Seq<char>>,
    selected: Seq<char>,
    other: Seq<char>,
)
    requires
        model_with_id(models, selected) is Some,
        !provider_ids(models, model_with_id(models, selected)->0.provider).contains(other),
        provider_toggled(models, Some(ids), selected) is Some,
    ensures
        takes_part(provider_toggled(models, Some(ids), selected), other) == ids.contains(other),
{
    let of_provider = provider_ids(models, model_with_id(models, selected)->0.provider);
    without_keeps(ids, of_provider, other);
    with_all_keeps(ids, of_provider, other);
}

/// The models of a provider are those that name it, and no others.
pub proof fn providers_own_their_models(models: Seq<ModelView>, provider: Seq<char>, k: int)
    requires
        0 <= k < models.len(),
    ensures
        models[k].provider == provider ==> provider_ids(models, provider).contains(
            models::full_id(models[k]),
        ),
        (forall|i: int| 0 <= i < models.len() ==> (#[trigger] models[i]).provider != provider)
            ==> provider_ids(models, provider).len() == 0,
    decreases models.len(),
{
    let rest = models.drop_last();
    let before = provider_ids(rest, provider);
    if models[k].provider == provider {
        pushed_contains(before, models::full_id(models.last()), models::full_id(models[k]));
        if k < rest.len() {
            assert(rest[k] == models[k]);
            providers_own_their_models(rest, provider, k);
        }
    }
    if forall|i: int| 0 <= i < models.len() ==> (#[trigger] models[i]).provider != provider {
        assert(models[models.len() - 1].provider != provider);
        if rest.len() > 0 {
            assert forall|i: int| 0 <= i < rest.len() implies (#[trigger] rest[i]).provider
                != provider by {
                assert(rest[i] == models[i]);
            }
            providers_own_their_models(rest, provider, 0);
        }
    }
}

/// The entry of a model carries its identifier, and is ticked exactly if the model takes part.
pub proof fn scoped_items_say_who_takes_part(models: Seq<ModelView>, enabled: Enabled, k: int)
    requires
        0 <= k < models.len(),
    ensures
        scoped_items(models, enabled).len() == models.len(),
        scoped_items(models, enabled)[k].value == models::full_id(models[k]),
        scoped_items(models, enabled)[k].description == Some(models[k].name),
        text::has_prefix(scoped_items(models, enabled)[k].label, models[k].id),
        takes_part(enabled, models::full_id(models[k])) ==> scoped_items(
            models,
            enabled,
        )[k].label.last() == '✓',
        !takes_part(enabled, models::full_id(models[k])) ==> scoped_items(
            models,
            enabled,
        )[k].label.last() == '✗',
{
    reveal_strlit(" ✓");
    reveal_strlit(" ✗");
    let item = scoped_items(models, enabled)[k];
    assert(item == scoped_item(models[k], enabled));
    assert(item.label.take(models[k].id.len() as int) =~= models[k].id);
}

/// Each row is that of the model that stands there, and none is left out.
pub proof fn scoped_rows_are_shown(
    models: Seq<ModelView>,
    filtered: Seq<usize>,
    enabled: Enabled,
    selected: nat,
    from: int,
    to: int,
    width: nat,
    k: int,
)
    requires
        0 <= from <= k < to <= filtered.len(),
        forall|i: int| 0 <= i < filtered.len() ==> (#[trigger] filtered[i]) < models.len(),
    ensures
        scoped_rows_upto(models, filtered, enabled, selected, from, to, width).len() == to - from,
        scoped_rows_upto(models, filtered, enabled, selected, from, to, width)[k - from]
            == scoped_row(models[filtered[k] as int], enabled, k == selected, width),
    decreases to - from,
{
    assert(filtered[to - 1] < models.len());
    if to - 1 > from {
        scoped_rows_are_shown(
            models,
            filtered,
            enabled,
            selected,
            from,
            to - 1,
            width,
            if k < to - 1 {
                k
            } else {
                from
            },
        );
    } else {
        assert(scoped_rows_upto(models, filtered, enabled, selected, from, from, width).len() == 0);
    }
}

/// One key lets every model take part and another none; saving keeps the list as it is; the arrows
/// with the alternate key move what is selected. Everything else is for the list or the field.
pub proof fn scoped_keys_do_what_they_say(
    models: Seq<ModelView>,
    enabled: Enabled,
    dirty: bool,
    selected: Option<Seq<char>>,
    event: KeyEvent,
    id: Seq<char>,
)
    ensures
        overlay::is_ctrl(event, 'a') ==> takes_part(
            scoped_step(models, enabled, dirty, selected, event).enabled,
            id,
        ),
        overlay::is_ctrl(event, 'x') ==> !takes_part(
            scoped_step(models, enabled, dirty, selected, event).enabled,
            id,
        ),
        overlay::is_ctrl(event, 's') ==> ({
            let step = scoped_step(models, enabled, dirty, selected, event);
            &&& step.enabled == enabled
            &&& !step.dirty
            &&& step.action is Save <==> enabled is Some
            &&& step.action is Forget <==> enabled is None
        }),
        overlay::is_ctrl(event, 'p') && selected is Some ==> ({
            let step = scoped_step(models, enabled, dirty, selected, event);
            &&& step.action is Apply
            &&& step.dirty
            &&& step.enabled == provider_toggled(models, enabled, selected->0)
        }),
        scoped_step(models, enabled, dirty, selected, event).enabled != enabled ==> scoped_step(
            models,
            enabled,
            dirty,
            selected,
            event,
        ).dirty && scoped_step(models, enabled, dirty, selected, event).action is Apply,
        event.modifiers == KeyModifiers::none() && event.code is Enter ==> scoped_step(
            models,
            enabled,
            dirty,
            selected,
            event,
        ).action is ToList,
{
}

/// What is chosen in the list is toggled, and nothing else changes the list from there.
pub proof fn chosen_models_are_toggled(enabled: Enabled, dirty: bool, value: String, renew: bool)
    ensures
        scoped_after(enabled, dirty, overlay::list_event(ListReply::Selected(value)), renew).enabled
            == toggled(enabled, value@),
        scoped_after(enabled, dirty, overlay::list_event(ListReply::Cancelled), renew).enabled
            == enabled,
        scoped_after(enabled, dirty, overlay::list_event(ListReply::Cancelled), renew).action
            is Close,
        scoped_after(enabled, dirty, overlay::list_event(ListReply::Moved), renew).enabled
            == enabled,
{
}

/// The list shows the row of each model in view, then what else there is to say of it.
pub proof fn scoped_models_in_view_are_shown(
    models: Seq<ModelView>,
    enabled: Enabled,
    place: ListPlace,
    width: nat,
    k: int,
)
    requires
        place.selected < place.filtered@.len(),
        place.max_visible > 0,
        forall|i: int|
            0 <= i < place.filtered@.len() ==> (#[trigger] place.filtered@[i]) < models.len(),
    ensures
        ({
            let (start, end) = overlay::visible_bounds(
                place.filtered@.len(),
                place.selected as nat,
                place.max_visible as nat,
            );
            let rows = scoped_rows(models, enabled, place, width);
            &&& start <= k < end ==> rows[k - start] == scoped_row(
                models[place.filtered@[k] as int],
                enabled,
                k == place.selected,
                width,
            )
            &&& rows.last() == screen::fitted(
                screen::hint(
                    "  Model Name: "@ + models[place.filtered@[place.selected as int] as int].name,
                ),
                width,
            )
        }),
{
    let (start, end) = overlay::visible_bounds(
        place.filtered@.len(),
        place.selected as nat,
        place.max_visible as nat,
    );
    overlay::selected_is_visible(
        place.filtered@.len(),
        place.selected as nat,
        place.max_visible as nat,
    );
    let at = if start <= k < end {
        k
    } else {
        place.selected as int
    };
    scoped_rows_are_shown(
        models,
        place.filtered@,
        enabled,
        place.selected as nat,
        start as int,
        end as int,
        width,
        at,
    );
    models::selected_model_is_named(models, place);
}

/// The overlay shows every row, and says how many models take part and whether that is saved.
pub proof fn scoped_overlay_shows_its_parts(
    models: Seq<ModelView>,
    enabled: Enabled,
    dirty: bool,
    place: ListPlace,
    width: nat,
    k: int,
)
    ensures
        0 <= k < scoped_rows(models, enabled, place, width).len() ==> scoped_overlay(
            models,
            enabled,
            dirty,
            place,
            width,
        ).contains(PieceView::Row(scoped_rows(models, enabled, place, width)[k])),
        scoped_overlay(models, enabled, dirty, place, width).contains(PieceView::Field(false)),
        scoped_overlay(models, enabled, dirty, place, width).contains(
            PieceView::Flow(screen::hint(scoped_footer(enabled, models.len(), dirty))),
        ),
        enabled matches Some(ids) ==> text::has_suffix(
            scoped_footer(enabled, models.len(), false),
            text::decimal(ids.len()) + "/"@ + text::decimal(models.len()) + " enabled"@,
        ),
        enabled is None ==> text::has_suffix(
            scoped_footer(enabled, models.len(), false),
            "all enabled"@,
        ),
        text::has_suffix(
            scoped_footer(enabled, models.len(), true),
            screen::warning("(unsaved)"@),
        ),
{
    let all = scoped_overlay(models, enabled, dirty, place, width);
    let rows = pieces::rows(scoped_rows(models, enabled, place, width));
    let r = pieces::rule(width).len() as int;
    assert(all[r + 4] == PieceView::Field(false) || all[r + 5] == PieceView::Field(false));
    if 0 <= k < rows.len() {
        assert(all[r + 6 + k] == rows[k]);
    }
    assert(all[r + 6 + rows.len() + 1] == PieceView::Flow(
        screen::hint(scoped_footer(enabled, models.len(), dirty)),
    ));
    let said = scoped_footer(enabled, models.len(), false);
    let counts = count_text(enabled, models.len(), "all enabled"@);
    assert(said.skip(said.len() - counts.len()) =~= counts);
    let unsaved = scoped_footer(enabled, models.len(), true);
    let note = screen::warning("(unsaved)"@);
    assert(unsaved.skip(unsaved.len() - note.len()) =~= note);
}

/// What is said of the selected model is said of that model.
pub proof fn scoped_detail_is_of_the_selected(models: Seq<ModelView>, k: int)
    requires
        0 <= k < models.len(),
        full_ids(models).no_duplicates(),
    ensures
        scoped_detail(models, Some(models::full_id(models[k]))) == Some(
            "Model Name: "@ + models::ability(models[k]),
        ),
        scoped_detail(models, None) is None,
{
    found_at(full_ids(models), k);
}

} // verus!
