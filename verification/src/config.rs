//! The browser in which resources are switched on and off.
use vstd::prelude::*;
use crate::chrome;
use crate::keys::{KeyCode, KeyEvent, KeyModifiers};
use crate::overlay;
use crate::overlay::{matches_ctrl_char, plain_escape, FieldReply};
use crate::pieces;
use crate::pieces::{append_overlay_banner, Piece, PieceView};
use crate::resources;
use crate::resources::{ConfigBrowserData, ConfigBrowserGroup, ConfigBrowserItem, ConfigBrowserSection, ConfigResourceKind, GroupView, ResourceView, SectionView};
use crate::screen;
use crate::screen::{style_hint, style_selected_row, style_subtitle, style_title, truncate_to_width};
use crate::text;
use crate::text::{cat2, contains, copy_text, lower_ascii, same, trimmed};
use crate::tools;
use crate::tools::shorten_home_path;

verus! {

broadcast use {crate::text::group_texts, crate::pieces::group_pieces};

/// What is searched for.
pub open spec fn wanted(filter: Seq<char>) -> Seq<char> {
    text::ascii_lower(text::trim(filter))
}

/// Whether a resource is found.
pub open spec fn is_found(item: ResourceView, sought: Seq<char>) -> bool {
    sought.len() == 0 || text::contains_text(text::ascii_lower(item.searchable), sought)
}

/// The resources that are found.
pub open spec fn found_items(items: Seq<ResourceView>, sought: Seq<char>) -> Seq<ResourceView>
    decreases items.len(),
{
    if items.len() == 0 {
        Seq::empty()
    } else {
        let before = found_items(items.drop_last(), sought);
        if is_found(items.last(), sought) {
            before.push(items.last())
        } else {
            before
        }
    }
}

/// A resource that is found, with the title of its group.
#[derive(Clone, Debug, PartialEq, Eq)]
pub struct ConfigBrowserVisibleRow {
    pub title: String,
    pub item: ConfigBrowserItem,
}

/// A resource that is found, with the title of its group, as a mathematical value.
pub struct RowView {
    pub title: Seq<char>,
    pub item: ResourceView,
}

impl View for ConfigBrowserVisibleRow {
    type V = RowView;

    open spec fn view(&self) -> RowView {
        RowView { title: self.title@, item: self.item@ }
    }
}

/// Rows, as mathematical values.
pub open spec fn row_views(rows: Seq<ConfigBrowserVisibleRow>) -> Seq<RowView> {
    Seq::new(rows.len(), |i: int| rows[i]@)
}

/// Resources with the title of their group.
pub open spec fn titled(title: Seq<char>, items: Seq<ResourceView>) -> Seq<RowView> {
    Seq::new(items.len(), |i: int| RowView { title, item: items[i] })
}

/// The rows of a group's sections.
pub open spec fn section_rows(title: Seq<char>, sections: Seq<SectionView>, sought: Seq<char>) -> Seq<
    RowView,
>
    decreases sections.len(),
{
    if sections.len() == 0 {
        Seq::empty()
    } else {
        section_rows(title, sections.drop_last(), sought) + titled(
            title,
            found_items(sections.last().items, sought),
        )
    }
}

/// The rows of groups: what is found in each, in order.
pub open spec fn visible_rows(groups: Seq<GroupView>, sought: Seq<char>) -> Seq<RowView>
    decreases groups.len(),
{
    if groups.len() == 0 {
        Seq::empty()
    } else {
        visible_rows(groups.drop_last(), sought) + section_rows(
            groups.last().title,
            groups.last().sections,
            sought,
        )
    }
}

fn filter_items(items: &Vec<ConfigBrowserItem>, sought: &str) -> (r: Vec<ConfigBrowserItem>)
    ensures
        resources::item_views(r@) == found_items(resources::item_views(items@), sought@),
{
    let ghost all = resources::item_views(items@);
    let mut out: Vec<ConfigBrowserItem> = Vec::new();
    let mut i: usize = 0;
    assert(all.take(0) =~= Seq::<ResourceView>::empty());
    assert(resources::item_views(out@) =~= Seq::<ResourceView>::empty());
    while i < items.len()
        invariant
            0 <= i <= items.len(),
            all == resources::item_views(items@),
            resources::item_views(out@) == found_items(all.take(i as int), sought@),
        decreases items.len() - i,
    {
        assert(all.take(i + 1).drop_last() =~= all.take(i as int));
        if sought.is_empty() || contains(
            lower_ascii(items[i].searchable.as_str()).as_str(),
            sought,
        ) {
            let item = items[i].copy();
            let ghost view = item@;
            let ghost earlier = resources::item_views(out@);
            out.push(item);
            assert(resources::item_views(out@) =~= earlier.push(view));
        }
        i += 1;
    }
    assert(all.take(i as int) =~= all);
    out
}

fn push_titled(out: &mut Vec<ConfigBrowserVisibleRow>, title: &str, items: &Vec<ConfigBrowserItem>)
    ensures
        row_views(final(out)@) == row_views(old(out)@) + titled(
            title@,
            resources::item_views(items@),
        ),
{
    let ghost before = row_views(out@);
    let ghost shown = titled(title@, resources::item_views(items@));
    let mut i: usize = 0;
    assert(before =~= before + shown.take(0));
    while i < items.len()
        invariant
            0 <= i <= items.len(),
            shown == titled(title@, resources::item_views(items@)),
            row_views(out@) == before + shown.take(i as int),
        decreases items.len() - i,
    {
        let row = ConfigBrowserVisibleRow { title: copy_text(title), item: items[i].copy() };
        let ghost earlier = row_views(out@);
        let ghost view = row@;
        out.push(row);
        assert(row_views(out@) =~= earlier.push(view));
        i += 1;
        assert(shown.take(i as int) =~= shown.take(i - 1).push(shown[i - 1]));
        assert(row_views(out@) =~= before + shown.take(i as int));
    }
    assert(shown.take(i as int) =~= shown);
}

fn push_group_rows(out: &mut Vec<ConfigBrowserVisibleRow>, group: &ConfigBrowserGroup, sought: &str)
    ensures
        row_views(final(out)@) == row_views(old(out)@) + section_rows(
            group@.title,
            group@.sections,
            sought@,
        ),
{
    let ghost before = row_views(out@);
    let ghost all = group@.sections;
    let mut i: usize = 0;
    assert(all.take(0) =~= Seq::<SectionView>::empty());
    assert(before =~= before + Seq::<RowView>::empty());
    while i < group.sections.len()
        invariant
            0 <= i <= group.sections.len(),
            all == group@.sections,
            row_views(out@) == before + section_rows(group@.title, all.take(i as int), sought@),
        decreases group.sections.len() - i,
    {
        assert(all.take(i + 1).drop_last() =~= all.take(i as int));
        assert(all.take(i + 1).last() == group.sections@[i as int]@);
        let items = filter_items(&group.sections[i].items, sought);
        push_titled(out, group.title.as_str(), &items);
        i += 1;
        assert(row_views(out@) =~= before + section_rows(
            group@.title,
            all.take(i as int),
            sought@,
        ));
    }
    assert(all.take(i as int) =~= all);
}

/// The resources that are found, with the titles of their groups.
pub fn build_config_browser_visible_rows(data: &ConfigBrowserData, filter: &str) -> (r: Vec<
    ConfigBrowserVisibleRow,
>)
    ensures
        row_views(r@) == visible_rows(resources::group_views(data.groups@), wanted(filter@)),
{
    let sought = lower_ascii(trimmed(filter).as_str());
    let ghost all = resources::group_views(data.groups@);
    let mut out: Vec<ConfigBrowserVisibleRow> = Vec::new();
    let mut i: usize = 0;
    assert(all.take(0) =~= Seq::<GroupView>::empty());
    assert(row_views(out@) =~= Seq::<RowView>::empty());
    while i < data.groups.len()
        invariant
            0 <= i <= data.groups.len(),
            all == resources::group_views(data.groups@),
            row_views(out@) == visible_rows(all.take(i as int), sought@),
        decreases data.groups.len() - i,
    {
        assert(all.take(i + 1).drop_last() =~= all.take(i as int));
        assert(all.take(i + 1).last() == data.groups@[i as int]@);
        push_group_rows(&mut out, &data.groups[i], sought.as_str());
        i += 1;
    }
    assert(all.take(i as int) =~= all);
    out
}

/// A row of the browser.
#[derive(Clone, Debug, PartialEq, Eq)]
pub enum ConfigBrowserDisplayRow {
    Group(String),
    Section(ConfigResourceKind),
    Item(ConfigBrowserItem),
    Blank,
}

/// A row of the browser, as a mathematical value.
pub enum DisplayView {
    Group(Seq<char>),
    Section(ConfigResourceKind),
    Item(ResourceView),
    Blank,
}

impl View for ConfigBrowserDisplayRow {
    type V = DisplayView;

    open spec fn view(&self) -> DisplayView {
        match self {
            ConfigBrowserDisplayRow::Group(title) => DisplayView::Group(title@),
            ConfigBrowserDisplayRow::Section(kind) => DisplayView::Section(*kind),
            ConfigBrowserDisplayRow::Item(item) => DisplayView::Item(item@),
            ConfigBrowserDisplayRow::Blank => DisplayView::Blank,
        }
    }
}

/// Rows of the browser, as mathematical values.
pub open spec fn display_views(rows: Seq<ConfigBrowserDisplayRow>) -> Seq<DisplayView> {
    Seq::new(rows.len(), |i: int| rows[i]@)
}

/// Resources as rows.
pub open spec fn item_rows(items: Seq<ResourceView>) -> Seq<DisplayView> {
    Seq::new(items.len(), |i: int| DisplayView::Item(items[i]))
}

/// The rows of a section: its heading, what is found in it and a blank one; none where nothing is
/// found.
pub open spec fn section_display(section: SectionView, sought: Seq<char>) -> Seq<DisplayView> {
    let found = found_items(section.items, sought);
    if found.len() == 0 {
        Seq::empty()
    } else {
        seq![DisplayView::Section(section.kind)] + item_rows(found) + seq![DisplayView::Blank]
    }
}

/// The rows of sections.
pub open spec fn sections_display(sections: Seq<SectionView>, sought: Seq<char>) -> Seq<DisplayView>
    decreases sections.len(),
{
    if sections.len() == 0 {
        Seq::empty()
    } else {
        sections_display(sections.drop_last(), sought) + section_display(sections.last(), sought)
    }
}

/// The rows of a group: its title and its sections, without the last blank one; none where nothing
/// is found.
pub open spec fn group_display(group: GroupView, sought: Seq<char>) -> Seq<DisplayView> {
    let body = sections_display(group.sections, sought);
    if body.len() == 0 {
        Seq::empty()
    } else {
        seq![DisplayView::Group(group.title)] + body.drop_last()
    }
}

/// The rows of groups, each followed by a blank one as soon as there is any row.
pub open spec fn groups_display(groups: Seq<GroupView>, sought: Seq<char>) -> Seq<DisplayView>
    decreases groups.len(),
{
    if groups.len() == 0 {
        Seq::empty()
    } else {
        let rows = groups_display(groups.drop_last(), sought) + group_display(
            groups.last(),
            sought,
        );
        if rows.len() == 0 {
            rows
        } else {
            rows.push(DisplayView::Blank)
        }
    }
}

/// The rows of the browser.
pub open spec fn display(groups: Seq<GroupView>, sought: Seq<char>) -> Seq<DisplayView> {
    let rows = groups_display(groups, sought);
    if rows.len() == 0 {
        rows
    } else {
        rows.drop_last()
    }
}

/// The places of the rows that are resources.
pub open spec fn item_places(rows: Seq<DisplayView>) -> Seq<int>
    decreases rows.len(),
{
    if rows.len() == 0 {
        Seq::empty()
    } else {
        let before = item_places(rows.drop_last());
        if rows.last() is Item {
            before.push(rows.len() - 1)
        } else {
            before
        }
    }
}

fn push_section_display(out: &mut Vec<ConfigBrowserDisplayRow>, section: &ConfigBrowserSection, sought: &str)
    ensures
        display_views(final(out)@) == display_views(old(out)@) + section_display(section@, sought@),
{
    let ghost before = display_views(out@);
    let found = filter_items(&section.items, sought);
    let ghost views = resources::item_views(found@);
    assert(views.len() == found@.len());
    if found.len() == 0 {
        assert(before =~= before + Seq::<DisplayView>::empty());
        return ;
    }
    out.push(ConfigBrowserDisplayRow::Section(section.kind));
    let ghost head = before.push(DisplayView::Section(section.kind));
    assert(display_views(out@) =~= head);
    let ghost shown = item_rows(views);
    let mut i: usize = 0;
    assert(head =~= head + shown.take(0));
    while i < found.len()
        invariant
            0 <= i <= found.len(),
            views == resources::item_views(found@),
            shown == item_rows(views),
            display_views(out@) == head + shown.take(i as int),
        decreases found.len() - i,
    {
        let row = ConfigBrowserDisplayRow::Item(found[i].copy());
        let ghost view = row@;
        let ghost earlier = display_views(out@);
        out.push(row);
        assert(display_views(out@) =~= earlier.push(view));
        i += 1;
        assert(shown.take(i as int) =~= shown.take(i - 1).push(shown[i - 1]));
        assert(display_views(out@) =~= head + shown.take(i as int));
    }
    assert(shown.take(i as int) =~= shown);
    let ghost earlier = display_views(out@);
    out.push(ConfigBrowserDisplayRow::Blank);
    assert(display_views(out@) =~= earlier.push(DisplayView::Blank));
    assert(section_display(section@, sought@) == seq![DisplayView::Section(section.kind)] + shown
        + seq![DisplayView::Blank]);
    assert(display_views(out@) =~= before + section_display(section@, sought@));
}

fn list_sections(group: &ConfigBrowserGroup, sought: &str) -> (r: Vec<ConfigBrowserDisplayRow>)
    ensures
        display_views(r@) == sections_display(group@.sections, sought@),
{
    let ghost all = group@.sections;
    let mut out: Vec<ConfigBrowserDisplayRow> = Vec::new();
    let mut i: usize = 0;
    assert(all.take(0) =~= Seq::<SectionView>::empty());
    assert(display_views(out@) =~= Seq::<DisplayView>::empty());
    while i < group.sections.len()
        invariant
            0 <= i <= group.sections.len(),
            all == group@.sections,
            display_views(out@) == sections_display(all.take(i as int), sought@),
        decreases group.sections.len() - i,
    {
        assert(all.take(i + 1).drop_last() =~= all.take(i as int));
        assert(all.take(i + 1).last() == group.sections@[i as int]@);
        push_section_display(&mut out, &group.sections[i], sought);
        i += 1;
    }
    assert(all.take(i as int) =~= all);
    out
}

fn push_group_display(out: &mut Vec<ConfigBrowserDisplayRow>, group: &ConfigBrowserGroup, sought: &str)
    ensures
        display_views(final(out)@) == display_views(old(out)@) + group_display(group@, sought@),
{
    let ghost before = display_views(out@);
    let mut body = list_sections(group, sought);
    let ghost views = display_views(body@);
    assert(views.len() == body@.len());
    if body.len() == 0 {
        assert(before =~= before + Seq::<DisplayView>::empty());
        return ;
    }
    body.pop();
    assert(display_views(body@) =~= views.drop_last());
    out.push(ConfigBrowserDisplayRow::Group(copy_text(group.title.as_str())));
    out.append(&mut body);
    assert(display_views(out@) =~= before + group_display(group@, sought@));
}

fn list_rows(data: &ConfigBrowserData, sought: &str) -> (r: Vec<ConfigBrowserDisplayRow>)
    ensures
        display_views(r@) == display(resources::group_views(data.groups@), sought@),
{
    let ghost all = resources::group_views(data.groups@);
    let mut out: Vec<ConfigBrowserDisplayRow> = Vec::new();
    let mut i: usize = 0;
    assert(all.take(0) =~= Seq::<GroupView>::empty());
    assert(display_views(out@) =~= Seq::<DisplayView>::empty());
    while i < data.groups.len()
        invariant
            0 <= i <= data.groups.len(),
            all == resources::group_views(data.groups@),
            display_views(out@) == groups_display(all.take(i as int), sought@),
        decreases data.groups.len() - i,
    {
        assert(all.take(i + 1).drop_last() =~= all.take(i as int));
        assert(all.take(i + 1).last() == data.groups@[i as int]@);
        push_group_display(&mut out, &data.groups[i], sought);
        let ghost rows = display_views(out@);
        assert(rows.len() == out@.len());
        if out.len() > 0 {
            out.push(ConfigBrowserDisplayRow::Blank);
            assert(display_views(out@) =~= rows.push(DisplayView::Blank));
        }
        i += 1;
    }
    assert(all.take(i as int) =~= all);
    let ghost rows = display_views(out@);
    assert(rows.len() == out@.len());
    if out.len() > 0 {
        out.pop();
        assert(display_views(out@) =~= rows.drop_last());
    }
    out
}

/// Places, as mathematical values.
pub open spec fn places(list: Seq<usize>) -> Seq<int> {
    Seq::new(list.len(), |i: int| list[i] as int)
}

fn list_places(rows: &Vec<ConfigBrowserDisplayRow>) -> (r: Vec<usize>)
    ensures
        places(r@) == item_places(display_views(rows@)),
{
    let ghost all = display_views(rows@);
    let mut out: Vec<usize> = Vec::new();
    let mut i: usize = 0;
    assert(all.take(0) =~= Seq::<DisplayView>::empty());
    assert(places(out@) =~= Seq::<int>::empty());
    while i < rows.len()
        invariant
            0 <= i <= rows.len(),
            all == display_views(rows@),
            places(out@) == item_places(all.take(i as int)),
        decreases rows.len() - i,
    {
        assert(all.take(i + 1).drop_last() =~= all.take(i as int));
        assert(all.take(i + 1).last() == rows@[i as int]@);
        let ghost earlier = places(out@);
        if let ConfigBrowserDisplayRow::Item(_) = &rows[i] {
            out.push(i);
            assert(places(out@) =~= earlier.push(i as int));
        }
        i += 1;
    }
    assert(all.take(i as int) =~= all);
    out
}

/// The rows of the browser, the places of the resources among them, and the resources.
pub fn build_config_browser_display_rows(data: &ConfigBrowserData, filter: &str) -> (r: (
    Vec<ConfigBrowserDisplayRow>,
    Vec<usize>,
    Vec<ConfigBrowserVisibleRow>,
))
    ensures
        display_views(r.0@) == display(resources::group_views(data.groups@), wanted(filter@)),
        places(r.1@) == item_places(
            display(resources::group_views(data.groups@), wanted(filter@)),
        ),
        row_views(r.2@) == visible_rows(resources::group_views(data.groups@), wanted(filter@)),
{
    let sought = lower_ascii(trimmed(filter).as_str());
    let rows = list_rows(data, sought.as_str());
    let item_row_indices = list_places(&rows);
    (rows, item_row_indices, build_config_browser_visible_rows(data, filter))
}

/// The resources among rows.
spec fn items_among(rows: Seq<DisplayView>) -> Seq<ResourceView>
    decreases rows.len(),
{
    if rows.len() == 0 {
        Seq::empty()
    } else {
        let before = items_among(rows.drop_last());
        match rows.last() {
            DisplayView::Item(item) => before.push(item),
            _ => before,
        }
    }
}

proof fn items_among_joined(a: Seq<DisplayView>, b: Seq<DisplayView>)
    ensures
        items_among(a + b) == items_among(a) + items_among(b),
    decreases b.len(),
{
    if b.len() == 0 {
        assert(a + b =~= a);
    } else {
        items_among_joined(a, b.drop_last());
        assert((a + b).drop_last() =~= a + b.drop_last());
        assert((a + b).last() == b.last());
        match b.last() {
            DisplayView::Item(item) => {
                assert(items_among(a + b) =~= items_among(a) + items_among(b));
            },
            _ => {},
        }
    }
}

proof fn items_among_items(items: Seq<ResourceView>)
    ensures
        items_among(item_rows(items)) == items,
    decreases items.len(),
{
    if items.len() > 0 {
        items_among_items(items.drop_last());
        assert(item_rows(items).drop_last() =~= item_rows(items.drop_last()));
        assert(items =~= items.drop_last().push(items.last()));
    }
}

proof fn places_find(rows: Seq<DisplayView>)
    ensures
        item_places(rows).len() == items_among(rows).len(),
        forall|i: int|
            0 <= i < item_places(rows).len() ==> 0 <= #[trigger] item_places(rows)[i] < rows.len()
                && rows[item_places(rows)[i]] == DisplayView::Item(items_among(rows)[i]),
    decreases rows.len(),
{
    if rows.len() > 0 {
        let shorter = rows.drop_last();
        places_find(shorter);
        assert forall|i: int| 0 <= i < item_places(rows).len() implies 0
            <= #[trigger] item_places(rows)[i] < rows.len() && rows[item_places(rows)[i]]
            == DisplayView::Item(items_among(rows)[i]) by {
            if i < item_places(shorter).len() {
                assert(item_places(rows)[i] == item_places(shorter)[i]);
                assert(shorter[item_places(shorter)[i]] == rows[item_places(shorter)[i]]);
            }
        }
    }
}

/// The resources of rows.
pub open spec fn items_in(rows: Seq<RowView>) -> Seq<ResourceView> {
    Seq::new(rows.len(), |i: int| rows[i].item)
}

proof fn blank_ends(sections: Seq<SectionView>, sought: Seq<char>)
    ensures
        sections_display(sections, sought).len() > 0 ==> sections_display(
            sections,
            sought,
        ).last() is Blank,
    decreases sections.len(),
{
    if sections.len() > 0 {
        blank_ends(sections.drop_last(), sought);
        let earlier = sections_display(sections.drop_last(), sought);
        let added = section_display(sections.last(), sought);
        if added.len() == 0 {
            assert(earlier + added =~= earlier);
        } else {
            assert((earlier + added).last() == added.last());
        }
    }
}

proof fn sections_hold(title: Seq<char>, sections: Seq<SectionView>, sought: Seq<char>)
    ensures
        items_among(sections_display(sections, sought)) == items_in(
            section_rows(title, sections, sought),
        ),
    decreases sections.len(),
{
    if sections.len() == 0 {
        assert(items_in(section_rows(title, sections, sought)) =~= Seq::<ResourceView>::empty());
    } else {
        let shorter = sections.drop_last();
        sections_hold(title, shorter, sought);
        let earlier = sections_display(shorter, sought);
        let added = section_display(sections.last(), sought);
        let found = found_items(sections.last().items, sought);
        items_among_joined(earlier, added);
        assert(items_among(added) =~= found) by {
            if found.len() > 0 {
                reveal_with_fuel(items_among, 2);
                let head = seq![DisplayView::Section(sections.last().kind)];
                let tail = seq![DisplayView::Blank];
                items_among_joined(head + item_rows(found), tail);
                items_among_joined(head, item_rows(found));
                items_among_items(found);
                assert(head.drop_last() =~= Seq::<DisplayView>::empty());
                assert(tail.drop_last() =~= Seq::<DisplayView>::empty());
                assert(items_among(head) =~= Seq::<ResourceView>::empty());
                assert(items_among(tail) =~= Seq::<ResourceView>::empty());
            }
        }
        assert(items_in(section_rows(title, sections, sought)) =~= items_in(
            section_rows(title, shorter, sought),
        ) + found);
    }
}

proof fn groups_hold(groups: Seq<GroupView>, sought: Seq<char>)
    ensures
        items_among(groups_display(groups, sought)) == items_in(visible_rows(groups, sought)),
    decreases groups.len(),
{
    if groups.len() == 0 {
        assert(items_in(visible_rows(groups, sought)) =~= Seq::<ResourceView>::empty());
    } else {
        let shorter = groups.drop_last();
        let group = groups.last();
        groups_hold(shorter, sought);
        sections_hold(group.title, group.sections, sought);
        blank_ends(group.sections, sought);
        let earlier = groups_display(shorter, sought);
        let added = group_display(group, sought);
        let body = sections_display(group.sections, sought);
        items_among_joined(earlier, added);
        assert(items_among(added) =~= items_among(body)) by {
            if body.len() > 0 {
                reveal_with_fuel(items_among, 2);
                let head = seq![DisplayView::Group(group.title)];
                items_among_joined(head, body.drop_last());
                assert(head.drop_last() =~= Seq::<DisplayView>::empty());
                assert(items_among(head) =~= Seq::<ResourceView>::empty());
            }
        }
        let rows = earlier + added;
        if rows.len() > 0 {
            assert(rows.push(DisplayView::Blank).drop_last() =~= rows);
        }
        assert(items_in(visible_rows(groups, sought)) =~= items_in(visible_rows(shorter, sought))
            + items_in(section_rows(group.title, group.sections, sought)));
    }
}

/// Each resource that is found has its row in the browser, in the same order: the places of the
/// resources lead to them.
pub proof fn rows_show_what_is_found(groups: Seq<GroupView>, sought: Seq<char>)
    ensures
        item_places(display(groups, sought)).len() == visible_rows(groups, sought).len(),
        forall|i: int|
            #![trigger item_places(display(groups, sought))[i]]
            0 <= i < visible_rows(groups, sought).len() ==> 0 <= item_places(
                display(groups, sought),
            )[i] < display(groups, sought).len() && display(groups, sought)[item_places(
                display(groups, sought),
            )[i]] == DisplayView::Item(visible_rows(groups, sought)[i].item),
{
    groups_hold(groups, sought);
    let rows = groups_display(groups, sought);
    if rows.len() > 0 {
        last_is_blank(groups, sought);
        assert(items_among(rows) == items_among(rows.drop_last()));
    }
    places_find(display(groups, sought));
    let found = items_in(visible_rows(groups, sought));
    assert(items_among(display(groups, sought)) == found);
    assert forall|i: int|
        #![trigger item_places(display(groups, sought))[i]]
        0 <= i < visible_rows(groups, sought).len() implies 0 <= item_places(
        display(groups, sought),
    )[i] < display(groups, sought).len() && display(groups, sought)[item_places(
        display(groups, sought),
    )[i]] == DisplayView::Item(visible_rows(groups, sought)[i].item) by {
        assert(found[i] == visible_rows(groups, sought)[i].item);
    }
}

proof fn last_is_blank(groups: Seq<GroupView>, sought: Seq<char>)
    ensures
        groups_display(groups, sought).len() > 0 ==> groups_display(
            groups,
            sought,
        ).last() is Blank,
{
}

/// The identifiers of rows.
pub open spec fn ids(rows: Seq<RowView>) -> Seq<Seq<char>> {
    Seq::new(rows.len(), |i: int| rows[i].item.id)
}

/// The place of the first text that is equal to one.
pub open spec fn place_of(list: Seq<Seq<char>>, id: Seq<char>) -> Option<int>
    decreases list.len(),
{
    if list.len() == 0 {
        None
    } else if list[0] == id {
        Some(0)
    } else {
        match place_of(list.skip(1), id) {
            Some(i) => Some(i + 1),
            None => None,
        }
    }
}

/// The place of what is selected.
pub open spec fn selected_place(list: Seq<Seq<char>>, selected: Option<Seq<char>>) -> Option<int> {
    match selected {
        Some(id) => place_of(list, id),
        None => None,
    }
}

/// What is selected once the rows changed: the same where it is still there, else the first.
pub open spec fn synced(list: Seq<Seq<char>>, selected: Option<Seq<char>>) -> Option<Seq<char>> {
    if list.len() == 0 {
        None
    } else if selected_place(list, selected) is Some {
        selected
    } else {
        Some(list[0])
    }
}

/// What is selected some rows further down, or further up for a negative number, as far as there
/// are rows.
pub open spec fn stepped(list: Seq<Seq<char>>, selected: Option<Seq<char>>, delta: int) -> Option<
    Seq<char>,
> {
    if list.len() == 0 {
        None
    } else {
        let current = match selected_place(list, selected) {
            Some(i) => i,
            None => 0,
        };
        let next = current + delta;
        Some(
            list[if next < 0 {
                0
            } else if next >= list.len() {
                list.len() - 1
            } else {
                next
            }],
        )
    }
}

proof fn place_is_first(list: Seq<Seq<char>>, id: Seq<char>, n: int)
    requires
        0 <= n <= list.len(),
        forall|j: int| 0 <= j < n ==> #[trigger] list[j] != id,
        n < list.len() ==> list[n] == id,
    ensures
        place_of(list, id) == (if n < list.len() {
            Some(n)
        } else {
            None
        }),
    decreases list.len(),
{
    if n > 0 {
        assert(list[0] != id);
        let rest = list.skip(1);
        assert forall|j: int| 0 <= j < n - 1 implies #[trigger] rest[j] != id by {
            assert(rest[j] == list[j + 1]);
        }
        place_is_first(rest, id, n - 1);
    }
}

fn find_row(rows: &[ConfigBrowserVisibleRow], id: &str) -> (r: Option<usize>)
    ensures
        match r {
            Some(i) => i < rows@.len() && place_of(ids(row_views(rows@)), id@) == Some(i as int),
            None => place_of(ids(row_views(rows@)), id@) is None,
        },
{
    let ghost all = ids(row_views(rows@));
    let mut i: usize = 0;
    while i < rows.len()
        invariant
            0 <= i <= rows.len(),
            all == ids(row_views(rows@)),
            forall|j: int| 0 <= j < i ==> #[trigger] all[j] != id@,
        decreases rows.len() - i,
    {
        if same(rows[i].item.id.as_str(), id) {
            proof {
                place_is_first(all, id@, i as int);
            }
            return Some(i);
        }
        i += 1;
    }
    proof {
        place_is_first(all, id@, i as int);
    }
    None
}

fn find_selected(rows: &[ConfigBrowserVisibleRow], selected_id: Option<&str>) -> (r: Option<usize>)
    ensures
        match r {
            Some(i) => i < rows@.len() && selected_place(
                ids(row_views(rows@)),
                chrome::opt_str(selected_id),
            ) == Some(i as int),
            None => selected_place(ids(row_views(rows@)), chrome::opt_str(selected_id)) is None,
        },
{
    match selected_id {
        Some(id) => find_row(rows, id),
        None => None,
    }
}

/// What is selected once the rows changed: the same where it is still there, else the first.
pub fn sync_config_browser_selection(visible_rows: &[ConfigBrowserVisibleRow], selected_id: Option<&str>) -> (r:
    Option<String>)
    ensures
        text::opt_text(r) == synced(ids(row_views(visible_rows@)), chrome::opt_str(selected_id)),
{
    assert(ids(row_views(visible_rows@)).len() == visible_rows@.len());
    if visible_rows.len() == 0 {
        return None;
    }
    if find_selected(visible_rows, selected_id).is_some() {
        match selected_id {
            Some(id) => Some(copy_text(id)),
            None => None,
        }
    } else {
        Some(copy_text(visible_rows[0].item.id.as_str()))
    }
}

/// What is selected some rows further down, or further up for a negative number, as far as there
/// are rows.
pub fn step_config_browser_selection(
    visible_rows: &[ConfigBrowserVisibleRow],
    selected_id: Option<&str>,
    delta: isize,
) -> (r: Option<String>)
    ensures
        text::opt_text(r) == stepped(
            ids(row_views(visible_rows@)),
            chrome::opt_str(selected_id),
            delta as int,
        ),
{
    assert(ids(row_views(visible_rows@)).len() == visible_rows@.len());
    if visible_rows.len() == 0 {
        return None;
    }
    let current: usize = match find_selected(visible_rows, selected_id) {
        Some(i) => i,
        None => 0,
    };
    let last: usize = visible_rows.len() - 1;
    let next: i128 = current as i128 + delta as i128;
    let place: usize = if next < 0 {
        0
    } else if next > last as i128 {
        last
    } else {
        next as usize
    };
    assert(ids(row_views(visible_rows@))[place as int] == visible_rows@[place as int].item.id@);
    Some(copy_text(visible_rows[place].item.id.as_str()))
}

/// The resource that is selected.
pub fn selected_config_browser_item<'a>(
    visible_rows: &'a [ConfigBrowserVisibleRow],
    selected_id: Option<&str>,
) -> (r: Option<&'a ConfigBrowserItem>)
    ensures
        match r {
            Some(item) => match selected_place(
                ids(row_views(visible_rows@)),
                chrome::opt_str(selected_id),
            ) {
                Some(i) => item@ == row_views(visible_rows@)[i].item,
                None => false,
            },
            None => selected_place(
                ids(row_views(visible_rows@)),
                chrome::opt_str(selected_id),
            ) is None,
        },
{
    match find_selected(visible_rows, selected_id) {
        Some(i) => {
            assert(row_views(visible_rows@)[i as int] == visible_rows@[i as int]@);
            Some(&visible_rows[i].item)
        },
        None => None,
    }
}

proof fn place_holds(list: Seq<Seq<char>>, id: Seq<char>)
    ensures
        match place_of(list, id) {
            Some(i) => 0 <= i < list.len() && list[i] == id,
            None => !list.contains(id),
        },
    decreases list.len(),
{
    if list.len() > 0 {
        let rest = list.skip(1);
        place_holds(rest, id);
        if place_of(list, id) is None && list.contains(id) {
            let k = choose|k: int| 0 <= k < list.len() && list[k] == id;
            assert(rest[k - 1] == id);
        }
    }
}

/// Where there are rows, one of them is selected; where there are none, nothing is.
pub proof fn one_row_is_selected(list: Seq<Seq<char>>, selected: Option<Seq<char>>)
    ensures
        match synced(list, selected) {
            Some(id) => list.contains(id),
            None => list.len() == 0,
        },
{
    if list.len() > 0 {
        match selected {
            Some(id) => {
                place_holds(list, id);
                if place_of(list, id) is Some {
                    assert(list[place_of(list, id)->Some_0] == id);
                }
            },
            None => {},
        }
        assert(list[0] == list[0]);
        assert(list.contains(list[0]));
    }
}

/// One step down and one step up lead back, unless the last row was selected.
pub proof fn down_and_up_lead_back(list: Seq<Seq<char>>, i: int)
    requires
        list.no_duplicates(),
        0 <= i < list.len() - 1,
    ensures
        stepped(list, stepped(list, Some(list[i]), 1), -1) == Some(list[i]),
{
    place_holds(list, list[i]);
    place_holds(list, list[i + 1]);
    assert(list.contains(list[i]));
    assert(list.contains(list[i + 1]));
}

/// The place of the last heading at or above a row; the first row where there is none.
pub open spec fn heading_above(rows: Seq<DisplayView>, n: int) -> int
    decreases n,
{
    if n <= 0 {
        0
    } else {
        match rows[n] {
            DisplayView::Item(_) => heading_above(rows, n - 1),
            DisplayView::Blank => heading_above(rows, n - 1),
            _ => n,
        }
    }
}

/// The rows that are shown: all where they fit. Else as many as fit, with the selected one in the
/// middle as far as there are rows, moved up to the heading above.
pub open spec fn window(rows: Seq<DisplayView>, available: nat, selected: nat) -> (int, int) {
    if available == 0 || rows.len() <= available {
        (0, rows.len() as int)
    } else {
        let middle = if selected < available / 2 {
            0
        } else {
            selected - available / 2
        };
        let start = heading_above(
            rows,
            if middle > rows.len() - available {
                rows.len() - available
            } else {
                middle
            },
        );
        (start, start + available)
    }
}

/// The rows that are shown, from the first to the one behind the last.
pub fn config_browser_window(
    rows: &[ConfigBrowserDisplayRow],
    available_rows: usize,
    selected_row_index: usize,
) -> (r: (usize, usize))
    ensures
        (r.0 as int, r.1 as int) == window(
            display_views(rows@),
            available_rows as nat,
            selected_row_index as nat,
        ),
        r.0 <= r.1 <= rows@.len(),
{
    let ghost all = display_views(rows@);
    assert(all.len() == rows@.len());
    if available_rows == 0 || rows.len() <= available_rows {
        return (0, rows.len());
    }
    let half: usize = available_rows / 2;
    let mut start: usize = if selected_row_index < half {
        0
    } else {
        selected_row_index - half
    };
    if start > rows.len() - available_rows {
        start = rows.len() - available_rows;
    }
    let ghost first = start as int;
    while start > 0 && matches!(rows[start], ConfigBrowserDisplayRow::Item(_) | ConfigBrowserDisplayRow::Blank)
        invariant
            all == display_views(rows@),
            0 <= start <= first <= rows.len() - available_rows,
            0 < available_rows < rows.len(),
            heading_above(all, start as int) == heading_above(all, first),
        decreases start,
    {
        assert(all[start as int] == rows@[start as int]@);
        start -= 1;
    }
    proof {
        if start > 0 {
            assert(all[start as int] == rows@[start as int]@);
        }
    }
    (start, start + available_rows)
}

proof fn heading_is_above(rows: Seq<DisplayView>, n: int)
    requires
        0 <= n < rows.len(),
    ensures
        0 <= heading_above(rows, n) <= n,
        heading_above(rows, n) == 0 || rows[heading_above(rows, n)] is Group
            || rows[heading_above(rows, n)] is Section,
    decreases n,
{
    if n > 0 {
        heading_is_above(rows, n - 1);
    }
}

/// The rows that are shown are rows of the browser and no more than fit. They begin at the first
/// row or with a heading.
pub proof fn window_begins_with_a_heading(rows: Seq<DisplayView>, available: nat, selected: nat)
    ensures
        0 <= window(rows, available, selected).0 <= window(rows, available, selected).1 <= rows.len(),
        available > 0 ==> window(rows, available, selected).1 - window(
            rows,
            available,
            selected,
        ).0 <= available,
        ({
            let start = window(rows, available, selected).0;
            start == 0 || rows[start] is Group || rows[start] is Section
        }),
{
    if available > 0 && rows.len() > available {
        let middle = if selected < available / 2 {
            0
        } else {
            selected - available / 2
        };
        heading_is_above(
            rows,
            if middle > rows.len() - available {
                rows.len() - available
            } else {
                middle
            },
        );
    }
}

/// A row of the browser as it is shown.
pub open spec fn row_text(row: DisplayView, selected: Option<Seq<char>>, width: nat) -> Seq<char> {
    match row {
        DisplayView::Group(title) => screen::title(title),
        DisplayView::Section(kind) => screen::subtitle(kind.heading()),
        DisplayView::Item(item) => {
            let shown = screen::cut(
                (if item.enabled {
                    "[x] "@
                } else {
                    "[ ] "@
                }) + item.title,
                width,
            );
            if selected == Some(item.id) {
                screen::selected_row(shown)
            } else {
                shown
            }
        },
        DisplayView::Blank => ""@,
    }
}

/// Rows of the browser as they are shown.
pub open spec fn row_flows(rows: Seq<DisplayView>, selected: Option<Seq<char>>, width: nat) -> Seq<
    PieceView,
> {
    Seq::new(rows.len(), |i: int| PieceView::Flow(row_text(rows[i], selected, width)))
}

fn show_row(row: &ConfigBrowserDisplayRow, selected_id: Option<&str>, width: u16) -> (r: String)
    ensures
        r@ == row_text(row@, chrome::opt_str(selected_id), width as nat),
{
    match row {
        ConfigBrowserDisplayRow::Group(title) => style_title(title.as_str()),
        ConfigBrowserDisplayRow::Section(kind) => style_subtitle(kind.label()),
        ConfigBrowserDisplayRow::Item(item) => {
            let shown = truncate_to_width(
                cat2(
                    if item.enabled {
                        "[x] "
                    } else {
                        "[ ] "
                    },
                    item.title.as_str(),
                ).as_str(),
                width as usize,
            );
            let is_selected = match selected_id {
                Some(id) => same(id, item.id.as_str()),
                None => false,
            };
            if is_selected {
                style_selected_row(shown.as_str())
            } else {
                shown
            }
        },
        ConfigBrowserDisplayRow::Blank => copy_text(""),
    }
}

/// What stands above the rows of the browser.
pub fn config_browser_header(width: u16) -> (r: Vec<Piece>)
    ensures
        pieces::views(r@) == pieces::banner(
            "Resource Configuration"@,
            "Type to filter resources"@,
            width as nat,
        ) + seq![PieceView::Blank, PieceView::Field(true), PieceView::Blank],
{
    let mut out: Vec<Piece> = Vec::new();
    append_overlay_banner(&mut out, "Resource Configuration", "Type to filter resources", width);
    let ghost head = pieces::views(out@);
    out.push(Piece::Blank);
    out.push(Piece::Field(true));
    out.push(Piece::Blank);
    assert(pieces::views(out@) =~= head + seq![
        PieceView::Blank,
        PieceView::Field(true),
        PieceView::Blank,
    ]);
    out
}

/// How many lines stand below the rows of the browser.
pub open spec fn lines_below(has_status: bool, has_selected: bool, has_extensions: bool) -> nat {
    2 + (if has_status {
        2nat
    } else {
        0
    }) + (if has_selected {
        2nat
    } else {
        0
    }) + (if has_extensions {
        1nat
    } else {
        0
    })
}

/// How many rows fit between what stands above and what stands below them.
pub open spec fn rows_that_fit(height: nat, above: nat, below: nat) -> nat {
    if height > above + below {
        (height - above - below) as nat
    } else {
        0
    }
}

/// What is known of the browser when it is drawn.
pub struct BrowserPlace {
    pub width: u16,
    pub height: u16,
    /// How many lines stand above the rows.
    pub above: u16,
}

/// The rows of the browser as they are shown.
pub open spec fn shown_rows(
    rows: Seq<DisplayView>,
    found: Seq<RowView>,
    selected: Option<Seq<char>>,
    available: nat,
    width: nat,
) -> Seq<PieceView> {
    if rows.len() == 0 {
        seq![PieceView::Flow(screen::hint("No resources found"@))]
    } else {
        let at = match selected_place(ids(found), selected) {
            Some(i) => if i < item_places(rows).len() {
                item_places(rows)[i] as nat
            } else {
                0
            },
            None => 0,
        };
        let (start, end) = window(rows, available, at);
        row_flows(rows.subrange(start, end), selected, width)
    }
}

/// A blank line and a text, where there is one.
pub open spec fn below_blank(s: Option<Seq<char>>) -> Seq<PieceView> {
    match s {
        Some(t) => seq![PieceView::Blank, PieceView::Flow(t)],
        None => Seq::empty(),
    }
}

/// The path of the resource that is selected, as it is shown.
pub open spec fn selected_path(
    found: Seq<RowView>,
    selected: Option<Seq<char>>,
    home: Option<Seq<char>>,
) -> Option<Seq<char>> {
    match selected_place(ids(found), selected) {
        Some(i) => Some(screen::hint(tools::short_path(found[i].item.path, home))),
        None => None,
    }
}

/// What is said of the last change, as it is shown.
pub open spec fn status_text(status: Option<Seq<char>>) -> Option<Seq<char>> {
    match status {
        Some(s) => Some(screen::subtitle(s)),
        None => None,
    }
}

/// What stands at the very bottom of the browser.
pub open spec fn browser_hints(has_extensions: bool) -> Seq<PieceView> {
    seq![PieceView::Blank, PieceView::Flow(screen::hint("Space/Enter toggle · Esc closes"@))] + (
    if has_extensions {
        seq![
            PieceView::Flow(
                screen::hint("Extensions stay static until the Rust plugin host lands."@),
            ),
        ]
    } else {
        Seq::empty()
    })
}

/// The browser below its header.
pub open spec fn browser_body(
    groups: Seq<GroupView>,
    has_extensions: bool,
    sought: Seq<char>,
    selected: Option<Seq<char>>,
    status: Option<Seq<char>>,
    home: Option<Seq<char>>,
    place: BrowserPlace,
) -> Seq<PieceView> {
    let found = visible_rows(groups, sought);
    let below = lines_below(
        status is Some,
        selected_place(ids(found), selected) is Some,
        has_extensions,
    );
    shown_rows(
        display(groups, sought),
        found,
        selected,
        rows_that_fit(place.height as nat, place.above as nat, below),
        place.width as nat,
    ) + below_blank(selected_path(found, selected, home)) + below_blank(status_text(status))
        + browser_hints(has_extensions)
}

fn push_below(out: &mut Vec<Piece>, s: Option<String>)
    ensures
        pieces::views(final(out)@) == pieces::views(old(out)@) + below_blank(text::opt_text(s)),
{
    let ghost before = pieces::views(out@);
    if let Some(t) = s {
        out.push(Piece::Blank);
        out.push(Piece::Flow(t));
    }
    assert(pieces::views(out@) =~= before + below_blank(text::opt_text(s)));
}

fn push_hints(out: &mut Vec<Piece>, has_extensions: bool)
    ensures
        pieces::views(final(out)@) == pieces::views(old(out)@) + browser_hints(has_extensions),
{
    let ghost before = pieces::views(out@);
    out.push(Piece::Blank);
    out.push(Piece::Flow(style_hint("Space/Enter toggle · Esc closes")));
    if has_extensions {
        out.push(
            Piece::Flow(style_hint("Extensions stay static until the Rust plugin host lands.")),
        );
    }
    assert(pieces::views(out@) =~= before + browser_hints(has_extensions));
}

fn list_flows(rows: &Vec<ConfigBrowserDisplayRow>, start: usize, end: usize, selected_id: Option<&str>, width: u16) -> (r:
    Vec<Piece>)
    requires
        start <= end <= rows@.len(),
    ensures
        pieces::views(r@) == row_flows(
            display_views(rows@).subrange(start as int, end as int),
            chrome::opt_str(selected_id),
            width as nat,
        ),
{
    let ghost all = display_views(rows@).subrange(start as int, end as int);
    let ghost shown = row_flows(all, chrome::opt_str(selected_id), width as nat);
    let mut out: Vec<Piece> = Vec::new();
    let mut i: usize = start;
    while i < end
        invariant
            start <= i <= end <= rows@.len(),
            all == display_views(rows@).subrange(start as int, end as int),
            shown == row_flows(all, chrome::opt_str(selected_id), width as nat),
            pieces::views(out@) =~= shown.take(i - start),
        decreases end - i,
    {
        assert(all[i - start] == rows@[i as int]@);
        out.push(Piece::Flow(show_row(&rows[i], selected_id, width)));
        i += 1;
        assert(shown.take(i - start) =~= shown.take(i - start - 1).push(shown[i - start - 1]));
    }
    assert(shown.take(i - start) =~= shown);
    out
}

fn list_shown_rows(
    rows: &Vec<ConfigBrowserDisplayRow>,
    found: &Vec<ConfigBrowserVisibleRow>,
    item_row_indices: &Vec<usize>,
    selected_id: Option<&str>,
    available: usize,
    width: u16,
) -> (r: Vec<Piece>)
    requires
        places(item_row_indices@) == item_places(display_views(rows@)),
    ensures
        pieces::views(r@) == shown_rows(
            display_views(rows@),
            row_views(found@),
            chrome::opt_str(selected_id),
            available as nat,
            width as nat,
        ),
{
    assert(display_views(rows@).len() == rows@.len());
    if rows.len() == 0 {
        let mut out: Vec<Piece> = Vec::new();
        out.push(Piece::Flow(style_hint("No resources found")));
        assert(pieces::views(out@) =~= seq![
            PieceView::Flow(screen::hint("No resources found"@)),
        ]);
        return out;
    }
    assert(places(item_row_indices@).len() == item_row_indices@.len());
    let at: usize = match find_selected(found.as_slice(), selected_id) {
        Some(i) => if i < item_row_indices.len() {
            assert(places(item_row_indices@)[i as int] == item_row_indices@[i as int]);
            item_row_indices[i]
        } else {
            0
        },
        None => 0,
    };
    let (start, end) = config_browser_window(rows.as_slice(), available, at);
    list_flows(rows, start, end, selected_id, width)
}

fn fit_rows(height: u16, above: u16, below: usize) -> (r: usize)
    requires
        below <= 7,
    ensures
        r == rows_that_fit(height as nat, above as nat, below as nat),
{
    let used: usize = above as usize + below;
    if height as usize > used {
        height as usize - used
    } else {
        0
    }
}

/// The browser below its header.
pub fn render_config_browser(
    data: &ConfigBrowserData,
    filter: &str,
    selected_id: Option<&str>,
    status: Option<&str>,
    home: &Option<String>,
    place: &BrowserPlace,
) -> (r: Vec<Piece>)
    ensures
        pieces::views(r@) == browser_body(
            resources::group_views(data.groups@),
            data.has_extension_config,
            wanted(filter@),
            chrome::opt_str(selected_id),
            chrome::opt_str(status),
            text::opt_text(*home),
            *place,
        ),
{
    let (rows, item_row_indices, found) = build_config_browser_display_rows(data, filter);
    let path = match selected_config_browser_item(found.as_slice(), selected_id) {
        Some(item) => Some(style_hint(shorten_home_path(item.path.as_str(), home).as_str())),
        None => None,
    };
    let mut below: usize = 2;
    if status.is_some() {
        below += 2;
    }
    if path.is_some() {
        below += 2;
    }
    if data.has_extension_config {
        below += 1;
    }
    let available: usize = fit_rows(place.height, place.above, below);
    let mut out = list_shown_rows(
        &rows,
        &found,
        &item_row_indices,
        selected_id,
        available,
        place.width,
    );
    push_below(&mut out, path);
    push_below(
        &mut out,
        match status {
            Some(s) => Some(style_subtitle(s)),
            None => None,
        },
    );
    push_hints(&mut out, data.has_extension_config);
    out
}

/// What a key press asks of the browser.
#[derive(Clone, Debug, PartialEq, Eq)]
pub enum ConfigStep {
    Close,
    /// Something else is selected.
    Select(Option<String>),
    /// The resource in this row is turned over.
    Toggle(usize),
    /// The key belongs to the field; what is selected stays.
    Search(Option<String>),
}

/// What a key press asks of the browser, as a mathematical value.
pub enum ConfigStepView {
    Close,
    Select(Option<Seq<char>>),
    Toggle(int),
    Search(Option<Seq<char>>),
}

impl View for ConfigStep {
    type V = ConfigStepView;

    open spec fn view(&self) -> ConfigStepView {
        match self {
            ConfigStep::Close => ConfigStepView::Close,
            ConfigStep::Select(id) => ConfigStepView::Select(text::opt_text(*id)),
            ConfigStep::Toggle(i) => ConfigStepView::Toggle(*i as int),
            ConfigStep::Search(id) => ConfigStepView::Search(text::opt_text(*id)),
        }
    }
}

/// The resource that is selected is turned over.
pub open spec fn toggle_step(list: Seq<Seq<char>>, current: Option<Seq<char>>) -> ConfigStepView {
    match selected_place(list, current) {
        Some(i) => ConfigStepView::Toggle(i),
        None => ConfigStepView::Select(current),
    }
}

/// What a key press asks of the browser.
pub open spec fn config_step(list: Seq<Seq<char>>, selected: Option<Seq<char>>, event: KeyEvent) -> ConfigStepView {
    let current = synced(list, selected);
    let alone = event.modifiers == KeyModifiers::none();
    if overlay::is_ctrl(event, 'c') || overlay::is_plain_escape(event) {
        ConfigStepView::Close
    } else {
        match event.code {
            KeyCode::Up if alone => ConfigStepView::Select(stepped(list, current, -1)),
            KeyCode::Down if alone => ConfigStepView::Select(stepped(list, current, 1)),
            KeyCode::Home if alone => ConfigStepView::Select(
                if list.len() == 0 {
                    None
                } else {
                    Some(list[0])
                },
            ),
            KeyCode::End if alone => ConfigStepView::Select(
                if list.len() == 0 {
                    None
                } else {
                    Some(list.last())
                },
            ),
            KeyCode::Enter if alone || event.modifiers == KeyModifiers::shift_only() => toggle_step(
                list,
                current,
            ),
            KeyCode::Char(c) if alone && c == ' ' => toggle_step(list, current),
            _ => ConfigStepView::Search(current),
        }
    }
}

fn as_str(value: &Option<String>) -> (r: Option<&str>)
    ensures
        chrome::opt_str(r) == text::opt_text(*value),
{
    match value {
        Some(s) => Some(s.as_str()),
        None => None,
    }
}

fn toggle_selected(rows: &[ConfigBrowserVisibleRow], current: Option<String>) -> (r: ConfigStep)
    ensures
        r@ == toggle_step(ids(row_views(rows@)), text::opt_text(current)),
{
    match find_selected(rows, as_str(&current)) {
        Some(i) => ConfigStep::Toggle(i),
        None => ConfigStep::Select(current),
    }
}

/// What a key press asks of the browser.
pub fn config_browser_key(rows: &[ConfigBrowserVisibleRow], selected_id: Option<&str>, event: &KeyEvent) -> (r:
    ConfigStep)
    ensures
        r@ == config_step(ids(row_views(rows@)), chrome::opt_str(selected_id), *event),
{
    if matches_ctrl_char(event, 'c') || plain_escape(event) {
        return ConfigStep::Close;
    }
    let ghost list = ids(row_views(rows@));
    assert(list.len() == rows@.len());
    let current = sync_config_browser_selection(rows, selected_id);
    let alone = event.modifiers == KeyModifiers::none();
    match event.code {
        KeyCode::Up if alone => ConfigStep::Select(
            step_config_browser_selection(rows, as_str(&current), -1),
        ),
        KeyCode::Down if alone => ConfigStep::Select(
            step_config_browser_selection(rows, as_str(&current), 1),
        ),
        KeyCode::Home if alone => if rows.len() == 0 {
            ConfigStep::Select(None)
        } else {
            ConfigStep::Select(Some(copy_text(rows[0].item.id.as_str())))
        },
        KeyCode::End if alone => if rows.len() == 0 {
            ConfigStep::Select(None)
        } else {
            assert(list.last() == rows@[rows@.len() - 1].item.id@);
            ConfigStep::Select(Some(copy_text(rows[rows.len() - 1].item.id.as_str())))
        },
        KeyCode::Enter if alone || event.modifiers == KeyModifiers::shift_only() => toggle_selected(
            rows,
            current,
        ),
        KeyCode::Char(c) if alone && c == ' ' => toggle_selected(rows, current),
        _ => ConfigStep::Search(current),
    }
}

/// What the browser does once its field has taken a key.
#[derive(Clone, Copy, Debug, PartialEq, Eq, Structural)]
pub enum ConfigFieldStep {
    Stay,
    /// What is searched for changed: nothing is selected any more, and nothing is said.
    Refilter,
    Close,
}

/// What the browser does once its field has taken a key.
pub fn config_field_reply(reply: &FieldReply) -> (r: ConfigFieldStep)
    ensures
        r == (match *reply {
            FieldReply::Changed => ConfigFieldStep::Refilter,
            FieldReply::Cancelled => ConfigFieldStep::Close,
            _ => ConfigFieldStep::Stay,
        }),
{
    match reply {
        FieldReply::Changed => ConfigFieldStep::Refilter,
        FieldReply::Cancelled => ConfigFieldStep::Close,
        _ => ConfigFieldStep::Stay,
    }
}

/// What is found among two runs of resources is what is found in the first, then in the second.
pub proof fn found_in_two(a: Seq<ResourceView>, b: Seq<ResourceView>, sought: Seq<char>)
    ensures
        found_items(a + b, sought) == found_items(a, sought) + found_items(b, sought),
    decreases b.len(),
{
    if b.len() == 0 {
        assert(a + b =~= a);
    } else {
        assert((a + b).drop_last() =~= a + b.drop_last());
        found_in_two(a, b.drop_last(), sought);
        assert(found_items(a + b, sought) =~= found_items(a, sought) + found_items(b, sought));
    }
}

/// Where nothing is sought, everything is found.
pub proof fn all_is_found_unless_sought(items: Seq<ResourceView>)
    ensures
        found_items(items, Seq::empty()) == items,
    decreases items.len(),
{
    if items.len() > 0 {
        all_is_found_unless_sought(items.drop_last());
    }
}

/// A resource is found exactly if what is searched of it holds what is sought, in any case.
pub proof fn found_holds_what_is_sought(item: ResourceView, sought: Seq<char>)
    requires
        sought.len() > 0,
    ensures
        text::contains_text(text::ascii_lower(item.searchable), sought) ==> found_items(
            seq![item],
            sought,
        ) == seq![item],
        !text::contains_text(text::ascii_lower(item.searchable), sought) ==> found_items(
            seq![item],
            sought,
        ).len() == 0,
{
    reveal_with_fuel(found_items, 2);
    assert(seq![item].drop_last() =~= Seq::<ResourceView>::empty());
}

/// The rows of two runs of groups are those of the first, then those of the second, and so are
/// those of two runs of sections.
pub proof fn rows_in_two(
    a: Seq<GroupView>,
    b: Seq<GroupView>,
    c: Seq<SectionView>,
    d: Seq<SectionView>,
    title: Seq<char>,
    sought: Seq<char>,
)
    ensures
        visible_rows(a + b, sought) == visible_rows(a, sought) + visible_rows(b, sought),
        section_rows(title, c + d, sought) == section_rows(title, c, sought) + section_rows(
            title,
            d,
            sought,
        ),
    decreases b.len() + d.len(),
{
    if b.len() == 0 {
        assert(a + b =~= a);
        assert(visible_rows(a, sought) + visible_rows(b, sought) =~= visible_rows(a, sought));
    } else {
        assert((a + b).drop_last() =~= a + b.drop_last());
        rows_in_two(a, b.drop_last(), c, d, title, sought);
        assert(visible_rows(a + b, sought) =~= visible_rows(a, sought) + visible_rows(b, sought));
    }
    if d.len() == 0 {
        assert(c + d =~= c);
        assert(section_rows(title, c, sought) + section_rows(title, d, sought) =~= section_rows(
            title,
            c,
            sought,
        ));
    } else {
        assert((c + d).drop_last() =~= c + d.drop_last());
        rows_in_two(a, b, c, d.drop_last(), title, sought);
        assert(section_rows(title, c + d, sought) =~= section_rows(title, c, sought)
            + section_rows(title, d, sought));
    }
}

/// Each section stands under its kind with what was found in it, and each group under its title;
/// one in which nothing was found does not stand there at all.
pub proof fn found_stands_under_its_kind(section: SectionView, group: GroupView, sought: Seq<char>)
    ensures
        found_items(section.items, sought).len() == 0 ==> section_display(section, sought).len()
            == 0,
        found_items(section.items, sought).len() > 0 ==> ({
            let shown = section_display(section, sought);
            let found = found_items(section.items, sought);
            &&& shown.len() == found.len() + 2
            &&& shown[0] == DisplayView::Section(section.kind)
            &&& shown.last() == DisplayView::Blank
            &&& forall|i: int|
                0 <= i < found.len() ==> #[trigger] shown[i + 1] == DisplayView::Item(found[i])
        }),
        sections_display(group.sections, sought).len() > 0 ==> group_display(group, sought)[0]
            == DisplayView::Group(group.title),
        sections_display(group.sections, sought).len() == 0 ==> group_display(group, sought).len()
            == 0,
{
    if found_items(section.items, sought).len() > 0 {
        let shown = section_display(section, sought);
        let found = found_items(section.items, sought);
        assert forall|i: int| 0 <= i < found.len() implies #[trigger] shown[i + 1]
            == DisplayView::Item(found[i]) by {
            assert(item_rows(found)[i] == DisplayView::Item(found[i]));
        }
    }
}

/// A row shows whether its resource is on, and its title; the selected row shows the same.
pub proof fn rows_show_their_resource(item: ResourceView, selected: Option<Seq<char>>, width: nat)
    requires
        !item.title.contains('\x1b'),
        item.title.len() + 4 <= width,
    ensures
        screen::visible(row_text(DisplayView::Item(item), selected, width)) == (if item.enabled {
            seq!['[', 'x', ']', ' ']
        } else {
            seq!['[', ' ', ']', ' ']
        }) + item.title,
{
    reveal_strlit("[x] ");
    reveal_strlit("[ ] ");
    let mark = (if item.enabled {
        "[x] "@
    } else {
        "[ ] "@
    });
    assert("[x] "@ =~= seq!['[', 'x', ']', ' ']);
    assert("[ ] "@ =~= seq!['[', ' ', ']', ' ']);
    let s = mark + item.title;
    assert(!s.contains('\x1b')) by {
        if s.contains('\x1b') {
            let k = choose|k: int| 0 <= k < s.len() && s[k] == '\x1b';
            if k >= 4 {
                assert(item.title[k - 4] == '\x1b');
            }
        }
    }
    screen::plain_is_visible(s);
    screen::visible_is_wide(screen::Scan::Plain, s);
    screen::cut_keeps_to_width(s, width);
    assert(screen::cut(s, width) == s);
    screen::other_codes();
    screen::plain_has_no_sequences(s);
    screen::lasting_style_shows_the_text("48;5;236"@, s);
}

/// The arrows move to the neighbouring row, the keys for the ends to the first and the last; the
/// keys that confirm turn the selected row over; the rest is searched for.
pub proof fn browser_keys_move(list: Seq<Seq<char>>, i: int, event: KeyEvent)
    requires
        list.no_duplicates(),
        0 <= i < list.len(),
        event.modifiers == KeyModifiers::none(),
    ensures
        event.code is Down && i + 1 < list.len() ==> config_step(list, Some(list[i]), event)
            == ConfigStepView::Select(Some(list[i + 1])),
        event.code is Up && i > 0 ==> config_step(list, Some(list[i]), event)
            == ConfigStepView::Select(Some(list[i - 1])),
        event.code is Home ==> config_step(list, Some(list[i]), event) == ConfigStepView::Select(
            Some(list[0]),
        ),
        event.code is End ==> config_step(list, Some(list[i]), event) == ConfigStepView::Select(
            Some(list.last()),
        ),
        event.code is Enter || event.code == KeyCode::Char(' ') ==> config_step(
            list,
            Some(list[i]),
            event,
        ) == ConfigStepView::Toggle(i),
        event.code is Escape ==> config_step(list, Some(list[i]), event) == ConfigStepView::Close,
        event.code is Backspace ==> config_step(list, Some(list[i]), event)
            == ConfigStepView::Search(Some(list[i])),
{
    id_is_at(list, i);
}

proof fn id_is_at(list: Seq<Seq<char>>, i: int)
    requires
        list.no_duplicates(),
        0 <= i < list.len(),
    ensures
        place_of(list, list[i]) == Some(i),
    decreases list.len(),
{
    if i > 0 {
        assert(list[0] != list[i]);
        let rest = list.skip(1);
        assert(rest[i - 1] == list[i]);
        assert(rest.no_duplicates());
        id_is_at(rest, i - 1);
    }
}

/// The path of the selected resource stands below the rows.
pub proof fn selected_path_is_shown(
    found: Seq<RowView>,
    i: int,
    home: Option<Seq<char>>,
)
    requires
        0 <= i < found.len(),
        ids(found).no_duplicates(),
    ensures
        selected_path(found, Some(found[i].item.id), home) == Some(
            screen::hint(tools::short_path(found[i].item.path, home)),
        ),
{
    id_is_at(ids(found), i);
}

/// Where there is room, every row is shown; where nothing was found, that is said; and what is
/// said of a change stands below.
pub proof fn browser_shows_all_rows(
    rows: Seq<DisplayView>,
    found: Seq<RowView>,
    selected: Option<Seq<char>>,
    available: nat,
    width: nat,
    groups: Seq<GroupView>,
    has_extensions: bool,
    sought: Seq<char>,
    status: Seq<char>,
    home: Option<Seq<char>>,
    place: BrowserPlace,
)
    ensures
        0 < rows.len() <= available ==> shown_rows(rows, found, selected, available, width)
            == row_flows(rows, selected, width),
        rows.len() == 0 ==> shown_rows(rows, found, selected, available, width) == seq![
            PieceView::Flow(screen::hint("No resources found"@)),
        ],
        browser_body(
            groups,
            has_extensions,
            sought,
            selected,
            Some(status),
            home,
            place,
        ).contains(PieceView::Flow(screen::subtitle(status))),
{
    if 0 < rows.len() <= available {
        assert(rows.subrange(0, rows.len() as int) =~= rows);
    }
    let listed = visible_rows(groups, sought);
    let body = browser_body(groups, has_extensions, sought, selected, Some(status), home, place);
    let below = below_blank(status_text(Some(status)));
    let above = shown_rows(
        display(groups, sought),
        listed,
        selected,
        rows_that_fit(
            place.height as nat,
            place.above as nat,
            lines_below(true, selected_place(ids(listed), selected) is Some, has_extensions),
        ),
        place.width as nat,
    ) + below_blank(selected_path(listed, selected, home));
    assert(below[1] == PieceView::Flow(screen::subtitle(status)));
    assert(body[above.len() as int + 1] == below[1]);
}

/// The rows and what stands below them fill the screen and no more.
pub proof fn rows_leave_room(height: nat, above: nat, below: nat)
    ensures
        above + below <= height ==> rows_that_fit(height, above, below) + above + below == height,
        above + below > height ==> rows_that_fit(height, above, below) == 0,
{
}

} // verus!
