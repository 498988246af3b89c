//! The resources that can be switched on and off, by where they come from.
use vstd::prelude::*;
use crate::paths;
use crate::paths::{path_parts, same_path, strip_dir, PathPart};
use crate::plugins::SettingsScope;
use crate::text;
use crate::text::{before, cat2, cat3, cat4, chars_of, copy_text, replaced_char, same, slice_text};
use crate::tools;
use crate::tools::shorten_home_path;

verus! {

broadcast use crate::text::group_texts;

/// The kinds of resources that can be switched on and off.
#[derive(Clone, Copy, Debug, PartialEq, Eq, Structural)]
pub enum ConfigResourceKind {
    Skill,
    Prompt,
    Theme,
}

impl ConfigResourceKind {
    /// The heading of the kind.
    pub open spec fn heading(self) -> Seq<char> {
        match self {
            ConfigResourceKind::Skill => "Skills"@,
            ConfigResourceKind::Prompt => "Prompts"@,
            ConfigResourceKind::Theme => "Themes"@,
        }
    }

    /// The name of the kind in the settings.
    pub open spec fn key(self) -> Seq<char> {
        match self {
            ConfigResourceKind::Skill => "skills"@,
            ConfigResourceKind::Prompt => "prompts"@,
            ConfigResourceKind::Theme => "themes"@,
        }
    }

    /// The heading of the kind.
    pub fn label(self) -> (r: &'static str)
        ensures
            r@ == self.heading(),
    {
        match self {
            ConfigResourceKind::Skill => "Skills",
            ConfigResourceKind::Prompt => "Prompts",
            ConfigResourceKind::Theme => "Themes",
        }
    }

    /// The name of the kind in the settings.
    pub fn settings_key(self) -> (r: &'static str)
        ensures
            r@ == self.key(),
    {
        match self {
            ConfigResourceKind::Skill => "skills",
            ConfigResourceKind::Prompt => "prompts",
            ConfigResourceKind::Theme => "themes",
        }
    }
}

/// For whom a package is installed.
#[derive(Clone, Copy, Debug, PartialEq, Eq, Structural)]
pub enum PackageInstallScope {
    User,
    Project,
    Temporary,
}

/// The scope in which the resources of a package count.
pub open spec fn package_scope(scope: PackageInstallScope) -> SettingsScope {
    match scope {
        PackageInstallScope::User => SettingsScope::Global,
        _ => SettingsScope::Project,
    }
}

/// The scope in which the resources of a package count.
pub fn resource_scope_from_package_scope(scope: PackageInstallScope) -> (r: SettingsScope)
    ensures
        r == package_scope(scope),
{
    match scope {
        PackageInstallScope::User => SettingsScope::Global,
        PackageInstallScope::Project => SettingsScope::Project,
        PackageInstallScope::Temporary => SettingsScope::Project,
    }
}

/// A package that is installed.
#[derive(Clone, Debug, PartialEq, Eq)]
pub struct InstalledPackage {
    pub identity: String,
    pub scope: PackageInstallScope,
    pub source: String,
    pub install_path: String,
}

/// Where resources come from.
#[derive(Clone, Debug, PartialEq, Eq)]
pub enum ResourceOrigin {
    Package { root: String },
    TopLevel { root: String },
}

/// A resource that was found. For one of a package, `enabled` says what the package's settings say.
#[derive(Clone, Debug, PartialEq, Eq)]
pub struct ResourceEntry {
    pub path: String,
    pub enabled: bool,
}

/// The resources of one origin.
#[derive(Clone, Debug, PartialEq, Eq)]
pub struct ResourceCatalogGroup {
    pub scope: SettingsScope,
    pub origin: ResourceOrigin,
    pub entries: Vec<ResourceEntry>,
}

/// The resources that were found, by kind.
#[derive(Clone, Debug, PartialEq, Eq)]
pub struct ResourceCatalog {
    pub skills: Vec<ResourceCatalogGroup>,
    pub prompts: Vec<ResourceCatalogGroup>,
    pub themes: Vec<ResourceCatalogGroup>,
}

/// Whose settings switch a resource on and off.
#[derive(Clone, Debug, PartialEq, Eq)]
pub enum ConfigBrowserOwner {
    TopLevel { scope: SettingsScope, base_dir: String },
    Package { identity: String, scope: PackageInstallScope, source: String, install_path: String },
}

/// Whose settings switch a resource on and off, as a mathematical value.
pub enum OwnerView {
    TopLevel { scope: SettingsScope, base_dir: Seq<char> },
    Package {
        identity: Seq<char>,
        scope: PackageInstallScope,
        source: Seq<char>,
        install_path: Seq<char>,
    },
}

impl View for ConfigBrowserOwner {
    type V = OwnerView;

    open spec fn view(&self) -> OwnerView {
        match self {
            ConfigBrowserOwner::TopLevel { scope, base_dir } => OwnerView::TopLevel {
                scope: *scope,
                base_dir: base_dir@,
            },
            ConfigBrowserOwner::Package { identity, scope, source, install_path } => OwnerView::Package {
                identity: identity@,
                scope: *scope,
                source: source@,
                install_path: install_path@,
            },
        }
    }
}

/// A resource that can be switched on and off.
#[derive(Clone, Debug, PartialEq, Eq)]
pub struct ConfigBrowserItem {
    pub id: String,
    pub title: String,
    pub path: String,
    pub enabled: bool,
    pub kind: ConfigResourceKind,
    pub owner: ConfigBrowserOwner,
    pub searchable: String,
}

/// A resource that can be switched on and off, as a mathematical value.
pub struct ResourceView {
    pub id: Seq<char>,
    pub title: Seq<char>,
    pub path: Seq<char>,
    pub enabled: bool,
    pub kind: ConfigResourceKind,
    pub owner: OwnerView,
    pub searchable: Seq<char>,
}

impl View for ConfigBrowserItem {
    type V = ResourceView;

    open spec fn view(&self) -> ResourceView {
        ResourceView {
            id: self.id@,
            title: self.title@,
            path: self.path@,
            enabled: self.enabled,
            kind: self.kind,
            owner: self.owner@,
            searchable: self.searchable@,
        }
    }
}

/// Resources, as mathematical values.
pub open spec fn item_views(items: Seq<ConfigBrowserItem>) -> Seq<ResourceView> {
    Seq::new(items.len(), |i: int| items[i]@)
}

/// The resources of one kind and one origin.
#[derive(Clone, Debug, PartialEq, Eq)]
pub struct ConfigBrowserSection {
    pub kind: ConfigResourceKind,
    pub items: Vec<ConfigBrowserItem>,
}

/// The resources of one kind and one origin, as a mathematical value.
#[verifier::ext_equal]
pub struct SectionView {
    pub kind: ConfigResourceKind,
    pub items: Seq<ResourceView>,
}

impl View for ConfigBrowserSection {
    type V = SectionView;

    open spec fn view(&self) -> SectionView {
        SectionView { kind: self.kind, items: item_views(self.items@) }
    }
}

/// Sections, as mathematical values.
pub open spec fn section_views(sections: Seq<ConfigBrowserSection>) -> Seq<SectionView> {
    Seq::new(sections.len(), |i: int| sections[i]@)
}

/// The resources of one origin.
#[derive(Clone, Debug, PartialEq, Eq)]
pub struct ConfigBrowserGroup {
    pub title: String,
    pub sections: Vec<ConfigBrowserSection>,
}

/// The resources of one origin, as a mathematical value.
#[verifier::ext_equal]
pub struct GroupView {
    pub title: Seq<char>,
    pub sections: Seq<SectionView>,
}

impl View for ConfigBrowserGroup {
    type V = GroupView;

    open spec fn view(&self) -> GroupView {
        GroupView { title: self.title@, sections: section_views(self.sections@) }
    }
}

/// Groups, as mathematical values.
pub open spec fn group_views(groups: Seq<ConfigBrowserGroup>) -> Seq<GroupView> {
    Seq::new(groups.len(), |i: int| groups[i]@)
}

/// All resources that can be switched on and off.
#[derive(Clone, Debug, PartialEq, Eq)]
pub struct ConfigBrowserData {
    pub groups: Vec<ConfigBrowserGroup>,
    pub has_extension_config: bool,
}

impl ConfigBrowserItem {
    /// A copy of the resource.
    pub fn copy(&self) -> (r: ConfigBrowserItem)
        ensures
            r@ == self@,
    {
        ConfigBrowserItem {
            id: copy_text(self.id.as_str()),
            title: copy_text(self.title.as_str()),
            path: copy_text(self.path.as_str()),
            enabled: self.enabled,
            kind: self.kind,
            owner: match &self.owner {
                ConfigBrowserOwner::TopLevel { scope, base_dir } => ConfigBrowserOwner::TopLevel {
                    scope: *scope,
                    base_dir: copy_text(base_dir.as_str()),
                },
                ConfigBrowserOwner::Package { identity, scope, source, install_path } => ConfigBrowserOwner::Package {
                    identity: copy_text(identity.as_str()),
                    scope: *scope,
                    source: copy_text(source.as_str()),
                    install_path: copy_text(install_path.as_str()),
                },
            },
            searchable: copy_text(self.searchable.as_str()),
        }
    }
}

/// The place of the last occurrence of a character.
pub open spec fn last_place(s: Seq<char>, c: char) -> Option<int>
    decreases s.len(),
{
    if s.len() == 0 {
        None
    } else if s.last() == c {
        Some(s.len() - 1)
    } else {
        last_place(s.drop_last(), c)
    }
}

/// A file name without its extension.
pub open spec fn stem(name: Seq<char>) -> Seq<char> {
    match last_place(name, '.') {
        Some(i) => if i > 0 {
            name.take(i)
        } else {
            name
        },
        None => name,
    }
}

/// The name that a resource is shown under.
pub open spec fn title_of(path: Seq<char>) -> Seq<char> {
    let parts = paths::parts_of(path);
    if parts.len() == 0 {
        "resource"@
    } else {
        match parts.last() {
            paths::PartView::Name(name) => stem(name),
            _ => "resource"@,
        }
    }
}

fn stem_text(name: &str) -> (r: String)
    ensures
        r@ == stem(name@),
{
    let chars = chars_of(name);
    let mut i: usize = chars.len();
    assert(name@.take(i as int) =~= name@);
    while i > 0 && chars[i - 1] != '.'
        invariant
            0 <= i <= chars.len(),
            chars@ == name@,
            last_place(name@.take(i as int), '.') == last_place(name@, '.'),
        decreases i,
    {
        assert(name@.take(i as int).drop_last() =~= name@.take(i - 1));
        i -= 1;
    }
    assert(name@.take(0) =~= Seq::<char>::empty());
    if i > 1 {
        slice_text(chars.as_slice(), 0, i - 1)
    } else {
        copy_text(name)
    }
}

/// The name that a resource is shown under: that of the file, without its extension.
pub fn config_browser_item_title(path: &str) -> (r: String)
    ensures
        r@ == title_of(path@),
{
    let parts = path_parts(path);
    assert(paths::part_views(parts@).len() == parts@.len());
    if parts.len() == 0 {
        return copy_text("resource");
    }
    let last = &parts[parts.len() - 1];
    assert(last@ == paths::part_views(parts@).last());
    match last {
        PathPart::Name(name) => stem_text(name.as_str()),
        _ => copy_text("resource"),
    }
}

/// The word for a scope.
pub open spec fn scope_word(scope: SettingsScope) -> Seq<char> {
    match scope {
        SettingsScope::Global => "Global"@,
        SettingsScope::Project => "Project"@,
    }
}

/// The word for a scope.
pub fn config_browser_scope_label(scope: SettingsScope) -> (r: &'static str)
    ensures
        r@ == scope_word(scope),
{
    match scope {
        SettingsScope::Global => "Global",
        SettingsScope::Project => "Project",
    }
}

/// The first package that is installed in a directory.
pub open spec fn package_at(packages: Seq<InstalledPackage>, root: Seq<char>) -> Option<InstalledPackage>
    decreases packages.len(),
{
    if packages.len() == 0 {
        None
    } else if paths::parts_of(packages[0].install_path@) == paths::parts_of(root) {
        Some(packages[0])
    } else {
        package_at(packages.skip(1), root)
    }
}

fn find_package<'a>(packages: &'a [InstalledPackage], root: &str) -> (r: Option<&'a InstalledPackage>)
    ensures
        match r {
            Some(package) => package_at(packages@, root@) == Some(*package),
            None => package_at(packages@, root@) is None,
        },
{
    let ghost all = packages@;
    let mut i: usize = 0;
    assert(all.skip(0) =~= all);
    while i < packages.len()
        invariant
            0 <= i <= packages.len(),
            all == packages@,
            package_at(all.skip(i as int), root@) == package_at(all, root@),
        decreases packages.len() - i,
    {
        assert(all.skip(i as int).skip(1) =~= all.skip(i + 1));
        if same_path(packages[i].install_path.as_str(), root) {
            return Some(&packages[i]);
        }
        i += 1;
    }
    None
}

/// The title of the resources of an origin.
pub open spec fn group_title(
    group: ResourceCatalogGroup,
    packages: Seq<InstalledPackage>,
    home: Option<Seq<char>>,
) -> Seq<char> {
    match group.origin {
        ResourceOrigin::Package { root } => scope_word(group.scope) + " package · "@ + (
        match package_at(packages, root@) {
            Some(package) => package.source@,
            None => tools::short_path(root@, home),
        }),
        ResourceOrigin::TopLevel { root } => scope_word(group.scope) + " top-level · "@
            + tools::short_path(root@, home),
    }
}

/// The title of the resources of an origin.
pub fn config_browser_group_title(
    group: &ResourceCatalogGroup,
    packages: &[InstalledPackage],
    home: &Option<String>,
) -> (r: String)
    ensures
        r@ == group_title(*group, packages@, text::opt_text(*home)),
{
    match &group.origin {
        ResourceOrigin::Package { root } => {
            let source = match find_package(packages, root.as_str()) {
                Some(package) => copy_text(package.source.as_str()),
                None => shorten_home_path(root.as_str(), home),
            };
            cat3(config_browser_scope_label(group.scope), " package · ", source.as_str())
        },
        ResourceOrigin::TopLevel { root } => cat3(
            config_browser_scope_label(group.scope),
            " top-level · ",
            shorten_home_path(root.as_str(), home).as_str(),
        ),
    }
}

/// The directories whose settings switch resources on and off that belong to no package.
pub struct ConfigDirs {
    pub agent_dir: String,
    pub project_dir: String,
}

/// Whose settings switch the resources of an origin on and off.
pub open spec fn owner_of(
    group: ResourceCatalogGroup,
    packages: Seq<InstalledPackage>,
    dirs: ConfigDirs,
) -> OwnerView {
    match group.origin {
        ResourceOrigin::Package { root } => {
            let package = package_at(packages, root@)->Some_0;
            OwnerView::Package {
                identity: package.identity@,
                scope: package.scope,
                source: package.source@,
                install_path: package.install_path@,
            }
        },
        ResourceOrigin::TopLevel { root } => OwnerView::TopLevel {
            scope: group.scope,
            base_dir: match group.scope {
                SettingsScope::Global => dirs.agent_dir@,
                SettingsScope::Project => dirs.project_dir@,
            },
        },
    }
}

/// Whether the package of each group that comes from one is installed.
pub open spec fn origins_known(groups: Seq<ResourceCatalogGroup>, packages: Seq<InstalledPackage>) -> bool {
    forall|i: int|
        0 <= i < groups.len() ==> origin_known(#[trigger] groups[i], packages)
}

/// Whether the package of a group that comes from one is installed. Where nothing was found, it
/// does not matter.
pub open spec fn origin_known(group: ResourceCatalogGroup, packages: Seq<InstalledPackage>) -> bool {
    group.entries@.len() > 0 ==> match group.origin {
        ResourceOrigin::Package { root } => package_at(packages, root@) is Some,
        ResourceOrigin::TopLevel { root } => true,
    }
}

/// A resource that was found, as one that can be switched on and off.
pub open spec fn item_of(
    entry: ResourceEntry,
    kind: ConfigResourceKind,
    owner: OwnerView,
    title: Seq<char>,
    home: Option<Seq<char>>,
) -> ResourceView {
    ResourceView {
        id: kind.key() + ":"@ + entry.path@,
        title: title_of(entry.path@),
        path: entry.path@,
        enabled: entry.enabled,
        kind,
        owner,
        searchable: title_of(entry.path@) + " "@ + title + " "@ + kind.heading() + " "@
            + tools::short_path(entry.path@, home),
    }
}

/// The resources of an origin, as ones that can be switched on and off.
pub open spec fn items_of(
    group: ResourceCatalogGroup,
    kind: ConfigResourceKind,
    packages: Seq<InstalledPackage>,
    dirs: ConfigDirs,
    home: Option<Seq<char>>,
) -> Seq<ResourceView> {
    Seq::new(
        group.entries@.len(),
        |i: int|
            item_of(
                group.entries@[i],
                kind,
                owner_of(group, packages, dirs),
                group_title(group, packages, home),
                home,
            ),
    )
}

fn make_owner(group: &ResourceCatalogGroup, packages: &[InstalledPackage], dirs: &ConfigDirs) -> (r:
    ConfigBrowserOwner)
    requires
        group.entries@.len() > 0,
        origin_known(*group, packages@),
    ensures
        r@ == owner_of(*group, packages@, *dirs),
{
    match &group.origin {
        ResourceOrigin::Package { root } => {
            let found = find_package(packages, root.as_str());
            let package = found.unwrap();
            ConfigBrowserOwner::Package {
                identity: copy_text(package.identity.as_str()),
                scope: package.scope,
                source: copy_text(package.source.as_str()),
                install_path: copy_text(package.install_path.as_str()),
            }
        },
        ResourceOrigin::TopLevel { root } => ConfigBrowserOwner::TopLevel {
            scope: group.scope,
            base_dir: match group.scope {
                SettingsScope::Global => copy_text(dirs.agent_dir.as_str()),
                SettingsScope::Project => copy_text(dirs.project_dir.as_str()),
            },
        },
    }
}

/// The resources of an origin, as ones that can be switched on and off.
pub fn build_config_browser_items_for_group(
    group: &ResourceCatalogGroup,
    kind: ConfigResourceKind,
    packages: &[InstalledPackage],
    dirs: &ConfigDirs,
    home: &Option<String>,
) -> (r: Vec<ConfigBrowserItem>)
    requires
        origin_known(*group, packages@),
    ensures
        item_views(r@) == items_of(*group, kind, packages@, *dirs, text::opt_text(*home)),
{
    let title = config_browser_group_title(group, packages, home);
    let ghost shown = items_of(*group, kind, packages@, *dirs, text::opt_text(*home));
    let mut out: Vec<ConfigBrowserItem> = Vec::new();
    let mut i: usize = 0;
    while i < group.entries.len()
        invariant
            0 <= i <= group.entries.len(),
            origin_known(*group, packages@),
            title@ == group_title(*group, packages@, text::opt_text(*home)),
            shown == items_of(*group, kind, packages@, *dirs, text::opt_text(*home)),
            item_views(out@) =~= shown.take(i as int),
        decreases group.entries.len() - i,
    {
        let entry = &group.entries[i];
        let name = config_browser_item_title(entry.path.as_str());
        let short = shorten_home_path(entry.path.as_str(), home);
        let searchable = cat4(
            cat4(name.as_str(), " ", title.as_str(), " ").as_str(),
            kind.label(),
            " ",
            short.as_str(),
        );
        let item = ConfigBrowserItem {
            id: cat3(kind.settings_key(), ":", entry.path.as_str()),
            title: name,
            path: copy_text(entry.path.as_str()),
            enabled: entry.enabled,
            kind,
            owner: make_owner(group, packages, dirs),
            searchable,
        };
        assert(item@.searchable =~= shown[i as int].searchable);
        assert(item@ == shown[i as int]);
        let ghost view = item@;
        let ghost earlier = item_views(out@);
        out.push(item);
        assert(item_views(out@) =~= earlier.push(view));
        i += 1;
        assert(shown.take(i as int) =~= shown.take(i - 1).push(shown[i - 1]));
    }
    assert(shown.take(i as int) =~= shown);
    out
}

/// The place of the first group with a title.
pub open spec fn group_place(groups: Seq<GroupView>, title: Seq<char>) -> Option<int>
    decreases groups.len(),
{
    if groups.len() == 0 {
        None
    } else {
        match group_place(groups.drop_last(), title) {
            Some(i) => Some(i),
            None => if groups.last().title == title {
                Some(groups.len() - 1)
            } else {
                None
            },
        }
    }
}

/// The place of the first section of a kind.
pub open spec fn section_place(sections: Seq<SectionView>, kind: ConfigResourceKind) -> Option<int>
    decreases sections.len(),
{
    if sections.len() == 0 {
        None
    } else {
        match section_place(sections.drop_last(), kind) {
            Some(i) => Some(i),
            None => if sections.last().kind == kind {
                Some(sections.len() - 1)
            } else {
                None
            },
        }
    }
}

/// Sections with resources of a kind added: to the section of the kind, or in a new one.
pub open spec fn with_items(sections: Seq<SectionView>, kind: ConfigResourceKind, items: Seq<ResourceView>) -> Seq<
    SectionView,
> {
    match section_place(sections, kind) {
        Some(i) => sections.update(i, SectionView { kind, items: sections[i].items + items }),
        None => sections.push(SectionView { kind, items }),
    }
}

/// Groups with resources added: to the group with the title, or in a new one.
pub open spec fn with_group(
    groups: Seq<GroupView>,
    title: Seq<char>,
    kind: ConfigResourceKind,
    items: Seq<ResourceView>,
) -> Seq<GroupView> {
    match group_place(groups, title) {
        Some(i) => groups.update(
            i,
            GroupView { title, sections: with_items(groups[i].sections, kind, items) },
        ),
        None => groups.push(GroupView { title, sections: with_items(Seq::empty(), kind, items) }),
    }
}

proof fn group_place_upto(groups: Seq<GroupView>, title: Seq<char>, n: int)
    requires
        0 <= n <= groups.len(),
        forall|j: int| 0 <= j < n ==> #[trigger] groups[j].title != title,
    ensures
        group_place(groups.take(n), title) is None,
        n < groups.len() && groups[n].title == title ==> group_place(groups, title) == Some(n),
    decreases groups.len(),
{
    if n < groups.len() {
        if groups.len() == n + 1 {
            if n > 0 {
                assert(groups.take(n) =~= groups.drop_last());
                group_place_upto(groups.drop_last(), title, n);
                assert(groups.drop_last().take(n) =~= groups.drop_last());
            } else {
                assert(groups.take(0) =~= Seq::<GroupView>::empty());
                assert(groups.drop_last() =~= Seq::<GroupView>::empty());
            }
        } else {
            let shorter = groups.drop_last();
            assert forall|j: int| 0 <= j < n implies #[trigger] shorter[j].title != title by {
                assert(shorter[j] == groups[j]);
            }
            group_place_upto(shorter, title, n);
            assert(shorter.take(n) =~= groups.take(n));
        }
    } else {
        assert(groups.take(n) =~= groups);
        if n > 0 {
            let shorter = groups.drop_last();
            assert forall|j: int| 0 <= j < n - 1 implies #[trigger] shorter[j].title != title by {
                assert(shorter[j] == groups[j]);
            }
            group_place_upto(shorter, title, n - 1);
            assert(shorter.take(n - 1) =~= shorter);
            assert(groups[n - 1].title != title);
        }
    }
}

proof fn section_place_upto(sections: Seq<SectionView>, kind: ConfigResourceKind, n: int)
    requires
        0 <= n <= sections.len(),
        forall|j: int| 0 <= j < n ==> #[trigger] sections[j].kind != kind,
    ensures
        section_place(sections.take(n), kind) is None,
        n < sections.len() && sections[n].kind == kind ==> section_place(sections, kind) == Some(n),
    decreases sections.len(),
{
    if n < sections.len() {
        if sections.len() == n + 1 {
            if n > 0 {
                assert(sections.take(n) =~= sections.drop_last());
                section_place_upto(sections.drop_last(), kind, n);
                assert(sections.drop_last().take(n) =~= sections.drop_last());
            } else {
                assert(sections.take(0) =~= Seq::<SectionView>::empty());
                assert(sections.drop_last() =~= Seq::<SectionView>::empty());
            }
        } else {
            let shorter = sections.drop_last();
            assert forall|j: int| 0 <= j < n implies #[trigger] shorter[j].kind != kind by {
                assert(shorter[j] == sections[j]);
            }
            section_place_upto(shorter, kind, n);
            assert(shorter.take(n) =~= sections.take(n));
        }
    } else {
        assert(sections.take(n) =~= sections);
        if n > 0 {
            let shorter = sections.drop_last();
            assert forall|j: int| 0 <= j < n - 1 implies #[trigger] shorter[j].kind != kind by {
                assert(shorter[j] == sections[j]);
            }
            section_place_upto(shorter, kind, n - 1);
            assert(shorter.take(n - 1) =~= shorter);
            assert(sections[n - 1].kind != kind);
        }
    }
}

fn find_group(groups: &Vec<ConfigBrowserGroup>, title: &str) -> (r: Option<usize>)
    ensures
        match r {
            Some(i) => i < groups@.len() && groups@[i as int].title@ == title@ && group_place(
                group_views(groups@),
                title@,
            ) == Some(i as int),
            None => group_place(group_views(groups@), title@) is None,
        },
{
    let ghost all = group_views(groups@);
    let mut i: usize = 0;
    while i < groups.len()
        invariant
            0 <= i <= groups.len(),
            all == group_views(groups@),
            forall|j: int| 0 <= j < i ==> #[trigger] all[j].title != title@,
        decreases groups.len() - i,
    {
        if same(groups[i].title.as_str(), title) {
            proof {
                group_place_upto(all, title@, i as int);
            }
            return Some(i);
        }
        i += 1;
    }
    proof {
        group_place_upto(all, title@, i as int);
        assert(all.take(i as int) =~= all);
    }
    None
}

fn find_section(sections: &Vec<ConfigBrowserSection>, kind: ConfigResourceKind) -> (r: Option<usize>)
    ensures
        match r {
            Some(i) => i < sections@.len() && section_place(section_views(sections@), kind) == Some(
                i as int,
            ),
            None => section_place(section_views(sections@), kind) is None,
        },
{
    let ghost all = section_views(sections@);
    let mut i: usize = 0;
    while i < sections.len()
        invariant
            0 <= i <= sections.len(),
            all == section_views(sections@),
            forall|j: int| 0 <= j < i ==> #[trigger] all[j].kind != kind,
        decreases sections.len() - i,
    {
        if sections[i].kind == kind {
            proof {
                section_place_upto(all, kind, i as int);
            }
            return Some(i);
        }
        i += 1;
    }
    proof {
        section_place_upto(all, kind, i as int);
        assert(all.take(i as int) =~= all);
    }
    None
}

fn add_to_sections(
    sections: &mut Vec<ConfigBrowserSection>,
    kind: ConfigResourceKind,
    items: Vec<ConfigBrowserItem>,
)
    ensures
        section_views(final(sections)@) == with_items(
            section_views(old(sections)@),
            kind,
            item_views(items@),
        ),
{
    let ghost before = section_views(sections@);
    let ghost added = item_views(items@);
    match find_section(sections, kind) {
        Some(i) => {
            let mut items = items;
            let mut section = sections.remove(i);
            let ghost present = item_views(section.items@);
            assert(before[i as int].items == present);
            assert(before[i as int].kind == section.kind);
            proof {
                section_found(before, kind);
            }
            section.items.append(&mut items);
            assert(item_views(section.items@) =~= present + added);
            sections.insert(i, section);
            assert(section_views(sections@) =~= with_items(before, kind, added));
        },
        None => {
            sections.push(ConfigBrowserSection { kind, items });
            assert(section_views(sections@) =~= with_items(before, kind, added));
        },
    }
}

proof fn section_found(sections: Seq<SectionView>, kind: ConfigResourceKind)
    ensures
        match section_place(sections, kind) {
            Some(i) => 0 <= i < sections.len() && sections[i].kind == kind,
            None => true,
        },
    decreases sections.len(),
{
    if sections.len() > 0 {
        section_found(sections.drop_last(), kind);
    }
}

/// Adds resources of a kind to the group with a title; the group and its section are made where
/// they are not there yet.
pub fn add_config_browser_items(
    groups: &mut Vec<ConfigBrowserGroup>,
    title: &str,
    kind: ConfigResourceKind,
    items: Vec<ConfigBrowserItem>,
)
    ensures
        group_views(final(groups)@) == with_group(
            group_views(old(groups)@),
            title@,
            kind,
            item_views(items@),
        ),
{
    let ghost before = group_views(groups@);
    let ghost added = item_views(items@);
    match find_group(groups, title) {
        Some(i) => {
            let mut group = groups.remove(i);
            assert(before[i as int].sections == section_views(group.sections@));
            add_to_sections(&mut group.sections, kind, items);
            groups.insert(i, group);
            assert(group_views(groups@) =~= with_group(before, title@, kind, added));
        },
        None => {
            let mut sections: Vec<ConfigBrowserSection> = Vec::new();
            assert(section_views(sections@) =~= Seq::<SectionView>::empty());
            add_to_sections(&mut sections, kind, items);
            groups.push(ConfigBrowserGroup { title: copy_text(title), sections });
            assert(group_views(groups@) =~= with_group(before, title@, kind, added));
        },
    }
}

/// Groups with the resources of a kind added, origin by origin.
pub open spec fn with_catalog(
    start: Seq<GroupView>,
    found: Seq<ResourceCatalogGroup>,
    kind: ConfigResourceKind,
    packages: Seq<InstalledPackage>,
    dirs: ConfigDirs,
    home: Option<Seq<char>>,
) -> Seq<GroupView>
    decreases found.len(),
{
    if found.len() == 0 {
        start
    } else {
        let before = with_catalog(start, found.drop_last(), kind, packages, dirs, home);
        with_group(
            before,
            group_title(found.last(), packages, home),
            kind,
            items_of(found.last(), kind, packages, dirs, home),
        )
    }
}

/// Adds the resources of a kind, origin by origin.
pub fn append_config_browser_groups(
    target: &mut Vec<ConfigBrowserGroup>,
    found: &[ResourceCatalogGroup],
    kind: ConfigResourceKind,
    packages: &[InstalledPackage],
    dirs: &ConfigDirs,
    home: &Option<String>,
)
    requires
        origins_known(found@, packages@),
    ensures
        group_views(final(target)@) == with_catalog(
            group_views(old(target)@),
            found@,
            kind,
            packages@,
            *dirs,
            text::opt_text(*home),
        ),
{
    let ghost start = group_views(target@);
    let ghost short = text::opt_text(*home);
    let mut i: usize = 0;
    assert(found@.take(0) =~= Seq::<ResourceCatalogGroup>::empty());
    while i < found.len()
        invariant
            0 <= i <= found.len(),
            short == text::opt_text(*home),
            origins_known(found@, packages@),
            group_views(target@) == with_catalog(
                start,
                found@.take(i as int),
                kind,
                packages@,
                *dirs,
                short,
            ),
        decreases found.len() - i,
    {
        assert(found@.take(i + 1).drop_last() =~= found@.take(i as int));
        assert(origin_known(found@[i as int], packages@));
        let title = config_browser_group_title(&found[i], packages, home);
        let items = build_config_browser_items_for_group(&found[i], kind, packages, dirs, home);
        add_config_browser_items(target, title.as_str(), kind, items);
        i += 1;
    }
    assert(found@.take(i as int) =~= found@);
}

/// A group put in its place among groups that are in the order of their titles.
pub open spec fn placed(sorted: Seq<GroupView>, group: GroupView) -> Seq<GroupView>
    decreases sorted.len(),
{
    if sorted.len() == 0 || !text::text_less(group.title, sorted.last().title) {
        sorted.push(group)
    } else {
        placed(sorted.drop_last(), group).push(sorted.last())
    }
}

/// Groups in the order of their titles.
pub open spec fn by_title(groups: Seq<GroupView>) -> Seq<GroupView>
    decreases groups.len(),
{
    if groups.len() == 0 {
        Seq::empty()
    } else {
        placed(by_title(groups.drop_last()), groups.last())
    }
}

proof fn placed_is_insert(sorted: Seq<GroupView>, group: GroupView, k: int)
    requires
        0 <= k <= sorted.len(),
        forall|j: int|
            k <= j < sorted.len() ==> text::text_less(group.title, (#[trigger] sorted[j]).title),
        k == 0 || !text::text_less(group.title, sorted[k - 1].title),
    ensures
        placed(sorted, group) == sorted.insert(k, group),
    decreases sorted.len(),
{
    if k == sorted.len() {
        assert(sorted.insert(k, group) =~= sorted.push(group));
    } else {
        let shorter = sorted.drop_last();
        assert forall|j: int| k <= j < shorter.len() implies text::text_less(
            group.title,
            (#[trigger] shorter[j]).title,
        ) by {
            assert(shorter[j] == sorted[j]);
        }
        assert(text::text_less(group.title, sorted[sorted.len() - 1].title));
        placed_is_insert(shorter, group, k);
        assert(sorted.insert(k, group) =~= shorter.insert(k, group).push(sorted.last()));
    }
}

fn place_group(sorted: &mut Vec<ConfigBrowserGroup>, group: ConfigBrowserGroup)
    ensures
        group_views(final(sorted)@) == placed(group_views(old(sorted)@), group@),
{
    let ghost views = group_views(sorted@);
    let ghost view = group@;
    let mut k: usize = sorted.len();
    while k > 0 && before(group.title.as_str(), sorted[k - 1].title.as_str())
        invariant
            0 <= k <= sorted.len(),
            view == group@,
            views == group_views(sorted@),
            forall|j: int|
                k <= j < sorted.len() ==> text::text_less(view.title, (#[trigger] views[j]).title),
        decreases k,
    {
        k -= 1;
    }
    proof {
        if k > 0 {
            assert(views[k - 1] == sorted@[k - 1]@);
        }
        placed_is_insert(views, view, k as int);
    }
    sorted.insert(k, group);
    assert(group_views(sorted@) =~= views.insert(k as int, view));
}

fn sort_groups(groups: Vec<ConfigBrowserGroup>) -> (r: Vec<ConfigBrowserGroup>)
    ensures
        group_views(r@) == by_title(group_views(groups@)),
{
    let ghost all = group_views(groups@);
    let ghost n = groups@.len();
    let mut rest = groups;
    let mut out: Vec<ConfigBrowserGroup> = Vec::new();
    assert(all.take(0) =~= Seq::<GroupView>::empty());
    assert(group_views(out@) =~= Seq::<GroupView>::empty());
    assert(all.skip(0) =~= all);
    while rest.len() > 0
        invariant
            rest@.len() <= n,
            n == all.len(),
            group_views(rest@) == all.skip(n - rest@.len()),
            group_views(out@) == by_title(all.take(n - rest@.len())),
        decreases rest@.len(),
    {
        let ghost i = n - rest@.len();
        let ghost views = group_views(rest@);
        let group = rest.remove(0);
        assert(group@ == views[0]);
        assert(views[0] == all[i]);
        assert forall|j: int| 0 <= j < rest@.len() implies #[trigger] group_views(rest@)[j]
            == all.skip(i + 1)[j] by {
            assert(rest@[j]@ == views[j + 1]);
        }
        assert(group_views(rest@) =~= all.skip(i + 1));
        assert(all.take(i + 1).drop_last() =~= all.take(i));
        place_group(&mut out, group);
    }
    assert(all.take(n as int) =~= all);
    out
}

/// All resources that were found, by origin and kind, in the order of the titles of the origins.
pub open spec fn browser_groups(
    catalog: ResourceCatalog,
    packages: Seq<InstalledPackage>,
    dirs: ConfigDirs,
    home: Option<Seq<char>>,
) -> Seq<GroupView> {
    let skills = with_catalog(
        Seq::empty(),
        catalog.skills@,
        ConfigResourceKind::Skill,
        packages,
        dirs,
        home,
    );
    let prompts = with_catalog(
        skills,
        catalog.prompts@,
        ConfigResourceKind::Prompt,
        packages,
        dirs,
        home,
    );
    by_title(
        with_catalog(prompts, catalog.themes@, ConfigResourceKind::Theme, packages, dirs, home),
    )
}

/// All resources that were found, by origin and kind, in the order of the titles of the origins.
pub fn build_config_browser_data(
    catalog: &ResourceCatalog,
    packages: &[InstalledPackage],
    dirs: &ConfigDirs,
    home: &Option<String>,
    has_extension_config: bool,
) -> (r: ConfigBrowserData)
    requires
        origins_known(catalog.skills@, packages@),
        origins_known(catalog.prompts@, packages@),
        origins_known(catalog.themes@, packages@),
    ensures
        group_views(r.groups@) == browser_groups(*catalog, packages@, *dirs, text::opt_text(*home)),
        r.has_extension_config == has_extension_config,
{
    let mut groups: Vec<ConfigBrowserGroup> = Vec::new();
    assert(group_views(groups@) =~= Seq::<GroupView>::empty());
    append_config_browser_groups(
        &mut groups,
        catalog.skills.as_slice(),
        ConfigResourceKind::Skill,
        packages,
        dirs,
        home,
    );
    append_config_browser_groups(
        &mut groups,
        catalog.prompts.as_slice(),
        ConfigResourceKind::Prompt,
        packages,
        dirs,
        home,
    );
    append_config_browser_groups(
        &mut groups,
        catalog.themes.as_slice(),
        ConfigResourceKind::Theme,
        packages,
        dirs,
        home,
    );
    ConfigBrowserData { groups: sort_groups(groups), has_extension_config }
}

/// Whether each group's title comes before the next one's.
pub open spec fn titles_ordered(groups: Seq<GroupView>) -> bool {
    forall|i: int, j: int|
        0 <= i < j < groups.len() ==> text::text_less(
            (#[trigger] groups[i]).title,
            (#[trigger] groups[j]).title,
        )
}

/// Whether no two groups have the same title.
pub open spec fn titles_differ(groups: Seq<GroupView>) -> bool {
    forall|i: int, j: int|
        0 <= i < j < groups.len() ==> (#[trigger] groups[i]).title != (#[trigger] groups[j]).title
}

proof fn group_found(groups: Seq<GroupView>, title: Seq<char>)
    ensures
        match group_place(groups, title) {
            Some(i) => 0 <= i < groups.len() && groups[i].title == title,
            None => forall|j: int| 0 <= j < groups.len() ==> (#[trigger] groups[j]).title != title,
        },
    decreases groups.len(),
{
    if groups.len() > 0 {
        let shorter = groups.drop_last();
        group_found(shorter, title);
        if group_place(groups, title) is None {
            assert forall|j: int| 0 <= j < groups.len() implies (#[trigger] groups[j]).title
                != title by {
                if j < shorter.len() {
                    assert(shorter[j].title != title);
                }
            }
        }
    }
}

proof fn catalog_titles_differ(
    start: Seq<GroupView>,
    found: Seq<ResourceCatalogGroup>,
    kind: ConfigResourceKind,
    packages: Seq<InstalledPackage>,
    dirs: ConfigDirs,
    home: Option<Seq<char>>,
)
    requires
        titles_differ(start),
    ensures
        titles_differ(with_catalog(start, found, kind, packages, dirs, home)),
    decreases found.len(),
{
    if found.len() > 0 {
        catalog_titles_differ(start, found.drop_last(), kind, packages, dirs, home);
        let earlier = with_catalog(start, found.drop_last(), kind, packages, dirs, home);
        let title = group_title(found.last(), packages, home);
        group_found(earlier, title);
        let r = with_catalog(start, found, kind, packages, dirs, home);
        assert forall|i: int, j: int| 0 <= i < j < r.len() implies (#[trigger] r[i]).title != (
        #[trigger] r[j]).title by {
            assert(r[i].title == (if i < earlier.len() {
                earlier[i].title
            } else {
                title
            }));
            assert(r[j].title == (if j < earlier.len() {
                earlier[j].title
            } else {
                title
            }));
        }
    }
}

proof fn placed_holds(sorted: Seq<GroupView>, group: GroupView, x: GroupView)
    ensures
        placed(sorted, group).contains(x) == (sorted.contains(x) || x == group),
    decreases sorted.len(),
{
    let r = placed(sorted, group);
    if sorted.len() == 0 || !text::text_less(group.title, sorted.last().title) {
        assert(r[sorted.len() as int] == group);
        if sorted.contains(x) {
            let k = choose|k: int| 0 <= k < sorted.len() && sorted[k] == x;
            assert(r[k] == x);
        }
        if r.contains(x) && x != group {
            let k = choose|k: int| 0 <= k < r.len() && r[k] == x;
            assert(sorted[k] == x);
        }
    } else {
        let shorter = sorted.drop_last();
        let p = placed(shorter, group);
        placed_holds(shorter, group, x);
        if sorted.contains(x) {
            let k = choose|k: int| 0 <= k < sorted.len() && sorted[k] == x;
            if k < shorter.len() {
                assert(shorter[k] == x);
            } else {
                assert(r[p.len() as int] == x);
            }
        }
        if p.contains(x) {
            let k = choose|k: int| 0 <= k < p.len() && p[k] == x;
            assert(r[k] == x);
        }
        if r.contains(x) {
            let k = choose|k: int| 0 <= k < r.len() && r[k] == x;
            if k < p.len() {
                assert(p[k] == x);
            } else {
                assert(sorted[sorted.len() - 1] == x);
            }
        }
        if shorter.contains(x) {
            let k = choose|k: int| 0 <= k < shorter.len() && shorter[k] == x;
            assert(sorted[k] == x);
        }
    }
}

proof fn placed_keeps_order(sorted: Seq<GroupView>, group: GroupView)
    requires
        titles_ordered(sorted),
        forall|i: int| 0 <= i < sorted.len() ==> (#[trigger] sorted[i]).title != group.title,
    ensures
        titles_ordered(placed(sorted, group)),
    decreases sorted.len(),
{
    let r = placed(sorted, group);
    if sorted.len() == 0 || !text::text_less(group.title, sorted.last().title) {
        assert forall|i: int, j: int| 0 <= i < j < r.len() implies text::text_less(
            (#[trigger] r[i]).title,
            (#[trigger] r[j]).title,
        ) by {
            if j == sorted.len() {
                let last = sorted[sorted.len() - 1];
                assert(last.title != group.title);
                text::text_less_is_total(last.title, group.title);
                if i < sorted.len() - 1 {
                    text::text_less_is_transitive(sorted[i].title, last.title, group.title);
                }
            }
        }
    } else {
        let last = sorted.last();
        let shorter = sorted.drop_last();
        assert forall|i: int, j: int| 0 <= i < j < shorter.len() implies text::text_less(
            (#[trigger] shorter[i]).title,
            (#[trigger] shorter[j]).title,
        ) by {
            assert(shorter[i] == sorted[i] && shorter[j] == sorted[j]);
        }
        assert forall|i: int| 0 <= i < shorter.len() implies (#[trigger] shorter[i]).title
            != group.title by {
            assert(shorter[i] == sorted[i]);
        }
        placed_keeps_order(shorter, group);
        let p = placed(shorter, group);
        assert forall|i: int| 0 <= i < p.len() implies text::text_less(
            (#[trigger] p[i]).title,
            last.title,
        ) by {
            assert(p.contains(p[i]));
            placed_holds(shorter, group, p[i]);
            if p[i] != group {
                let k = choose|k: int| 0 <= k < shorter.len() && shorter[k] == p[i];
                assert(text::text_less(sorted[k].title, sorted[sorted.len() - 1].title));
            }
        }
    }
}

proof fn by_title_holds(groups: Seq<GroupView>, x: GroupView)
    ensures
        by_title(groups).contains(x) == groups.contains(x),
    decreases groups.len(),
{
    if groups.len() > 0 {
        let shorter = groups.drop_last();
        by_title_holds(shorter, x);
        placed_holds(by_title(shorter), groups.last(), x);
        if groups.contains(x) {
            let k = choose|k: int| 0 <= k < groups.len() && groups[k] == x;
            if k < shorter.len() {
                assert(shorter[k] == x);
            }
        }
        if shorter.contains(x) {
            let k = choose|k: int| 0 <= k < shorter.len() && shorter[k] == x;
            assert(groups[k] == x);
        }
        assert(groups[groups.len() - 1] == groups.last());
    }
}

proof fn by_title_orders(groups: Seq<GroupView>)
    requires
        titles_differ(groups),
    ensures
        titles_ordered(by_title(groups)),
    decreases groups.len(),
{
    if groups.len() > 0 {
        let shorter = groups.drop_last();
        assert forall|i: int, j: int| 0 <= i < j < shorter.len() implies (
        #[trigger] shorter[i]).title != (#[trigger] shorter[j]).title by {
            assert(shorter[i] == groups[i] && shorter[j] == groups[j]);
        }
        by_title_orders(shorter);
        let sorted = by_title(shorter);
        assert forall|i: int| 0 <= i < sorted.len() implies (#[trigger] sorted[i]).title
            != groups.last().title by {
            assert(sorted.contains(sorted[i]));
            by_title_holds(shorter, sorted[i]);
            let k = choose|k: int| 0 <= k < shorter.len() && shorter[k] == sorted[i];
            assert(groups[k].title != groups[groups.len() - 1].title);
        }
        placed_keeps_order(sorted, groups.last());
    }
}

/// The groups of the browser stand in the order of their titles, and no title stands twice.
pub proof fn groups_stand_in_order(
    catalog: ResourceCatalog,
    packages: Seq<InstalledPackage>,
    dirs: ConfigDirs,
    home: Option<Seq<char>>,
)
    ensures
        titles_ordered(browser_groups(catalog, packages, dirs, home)),
{
    let skills = with_catalog(
        Seq::empty(),
        catalog.skills@,
        ConfigResourceKind::Skill,
        packages,
        dirs,
        home,
    );
    let prompts = with_catalog(
        skills,
        catalog.prompts@,
        ConfigResourceKind::Prompt,
        packages,
        dirs,
        home,
    );
    let themes = with_catalog(
        prompts,
        catalog.themes@,
        ConfigResourceKind::Theme,
        packages,
        dirs,
        home,
    );
    catalog_titles_differ(
        Seq::empty(),
        catalog.skills@,
        ConfigResourceKind::Skill,
        packages,
        dirs,
        home,
    );
    catalog_titles_differ(
        skills,
        catalog.prompts@,
        ConfigResourceKind::Prompt,
        packages,
        dirs,
        home,
    );
    catalog_titles_differ(
        prompts,
        catalog.themes@,
        ConfigResourceKind::Theme,
        packages,
        dirs,
        home,
    );
    by_title_orders(themes);
}

/// Whether a resource stands in a section.
pub open spec fn in_section(section: SectionView, item: ResourceView) -> bool {
    section.kind == item.kind && section.items.contains(item)
}

/// Whether a resource stands in the section of its kind.
pub open spec fn in_sections(sections: Seq<SectionView>, item: ResourceView) -> bool {
    exists|s: int| 0 <= s < sections.len() && in_section(#[trigger] sections[s], item)
}

/// Whether a resource stands in a group with a title.
pub open spec fn listed(groups: Seq<GroupView>, title: Seq<char>, item: ResourceView) -> bool {
    exists|g: int|
        0 <= g < groups.len() && (#[trigger] groups[g]).title == title && in_sections(groups[g].sections, item)
}

proof fn with_items_keeps(
    sections: Seq<SectionView>,
    kind: ConfigResourceKind,
    items: Seq<ResourceView>,
    x: ResourceView,
)
    ensures
        in_sections(sections, x) ==> in_sections(with_items(sections, kind, items), x),
        items.contains(x) && x.kind == kind ==> in_sections(with_items(sections, kind, items), x),
{
    let r = with_items(sections, kind, items);
    section_found(sections, kind);
    if in_sections(sections, x) {
        let s = choose|s: int|
            0 <= s < sections.len() && in_section(#[trigger] sections[s], x);
        let k = choose|k: int| 0 <= k < sections[s].items.len() && sections[s].items[k] == x;
        assert(r[s].items[k] == x);
        assert(in_section(r[s], x));
    }
    if items.contains(x) && x.kind == kind {
        let k = choose|k: int| 0 <= k < items.len() && items[k] == x;
        match section_place(sections, kind) {
            Some(i) => {
                assert(r[i].items[sections[i].items.len() + k] == x);
                assert(in_section(r[i], x));
            },
            None => {
                assert(r[sections.len() as int].items[k] == x);
                assert(in_section(r[sections.len() as int], x));
            },
        }
    }
}

proof fn with_group_keeps(
    groups: Seq<GroupView>,
    title: Seq<char>,
    kind: ConfigResourceKind,
    items: Seq<ResourceView>,
    t: Seq<char>,
    x: ResourceView,
)
    ensures
        listed(groups, t, x) ==> listed(with_group(groups, title, kind, items), t, x),
        items.contains(x) && x.kind == kind ==> listed(
            with_group(groups, title, kind, items),
            title,
            x,
        ),
{
    let r = with_group(groups, title, kind, items);
    group_found(groups, title);
    if listed(groups, t, x) {
        let g = choose|g: int|
            0 <= g < groups.len() && (#[trigger] groups[g]).title == t && in_sections(groups[g].sections, x);
        match group_place(groups, title) {
            Some(i) => {
                if g == i {
                    with_items_keeps(groups[i].sections, kind, items, x);
                }
                assert(r[g].title == t && in_sections(r[g].sections, x));
            },
            None => {
                assert(r[g] == groups[g]);
            },
        }
    }
    if items.contains(x) && x.kind == kind {
        match group_place(groups, title) {
            Some(i) => {
                with_items_keeps(groups[i].sections, kind, items, x);
                assert(r[i].title == title && in_sections(r[i].sections, x));
            },
            None => {
                with_items_keeps(Seq::empty(), kind, items, x);
                assert(r[groups.len() as int].title == title && in_sections(r[groups.len() as int].sections, x));
            },
        }
    }
}

proof fn catalog_keeps(
    start: Seq<GroupView>,
    found: Seq<ResourceCatalogGroup>,
    kind: ConfigResourceKind,
    packages: Seq<InstalledPackage>,
    dirs: ConfigDirs,
    home: Option<Seq<char>>,
    t: Seq<char>,
    x: ResourceView,
)
    requires
        listed(start, t, x),
    ensures
        listed(with_catalog(start, found, kind, packages, dirs, home), t, x),
    decreases found.len(),
{
    if found.len() > 0 {
        catalog_keeps(start, found.drop_last(), kind, packages, dirs, home, t, x);
        with_group_keeps(
            with_catalog(start, found.drop_last(), kind, packages, dirs, home),
            group_title(found.last(), packages, home),
            kind,
            items_of(found.last(), kind, packages, dirs, home),
            t,
            x,
        );
    }
}

proof fn catalog_lists(
    start: Seq<GroupView>,
    found: Seq<ResourceCatalogGroup>,
    kind: ConfigResourceKind,
    packages: Seq<InstalledPackage>,
    dirs: ConfigDirs,
    home: Option<Seq<char>>,
    g: int,
    e: int,
)
    requires
        0 <= g < found.len(),
        0 <= e < found[g].entries@.len(),
    ensures
        listed(
            with_catalog(start, found, kind, packages, dirs, home),
            group_title(found[g], packages, home),
            items_of(found[g], kind, packages, dirs, home)[e],
        ),
    decreases found.len(),
{
    let earlier = with_catalog(start, found.drop_last(), kind, packages, dirs, home);
    let x = items_of(found[g], kind, packages, dirs, home)[e];
    let t = group_title(found[g], packages, home);
    if g < found.len() - 1 {
        catalog_lists(start, found.drop_last(), kind, packages, dirs, home, g, e);
    } else {
        assert(items_of(found[g], kind, packages, dirs, home).contains(x));
    }
    with_group_keeps(
        earlier,
        group_title(found.last(), packages, home),
        kind,
        items_of(found.last(), kind, packages, dirs, home),
        t,
        x,
    );
}

proof fn ordering_keeps(groups: Seq<GroupView>, t: Seq<char>, x: ResourceView)
    requires
        listed(groups, t, x),
    ensures
        listed(by_title(groups), t, x),
{
    let g = choose|g: int|
        0 <= g < groups.len() && (#[trigger] groups[g]).title == t && in_sections(groups[g].sections, x);
    by_title_holds(groups, groups[g]);
    assert(groups.contains(groups[g]));
    let r = by_title(groups);
    let k = choose|k: int| 0 <= k < r.len() && r[k] == groups[g];
    assert(r[k].title == t && in_sections(r[k].sections, x));
}

/// The groups of a kind that were found.
pub open spec fn found_of(catalog: ResourceCatalog, kind: ConfigResourceKind) -> Seq<
    ResourceCatalogGroup,
> {
    match kind {
        ConfigResourceKind::Skill => catalog.skills@,
        ConfigResourceKind::Prompt => catalog.prompts@,
        ConfigResourceKind::Theme => catalog.themes@,
    }
}

/// Every resource that was found stands in the browser, under the title of its origin and in the
/// section of its kind.
pub proof fn every_resource_is_listed(
    catalog: ResourceCatalog,
    packages: Seq<InstalledPackage>,
    dirs: ConfigDirs,
    home: Option<Seq<char>>,
    kind: ConfigResourceKind,
    g: int,
    e: int,
)
    requires
        0 <= g < found_of(catalog, kind).len(),
        0 <= e < found_of(catalog, kind)[g].entries@.len(),
    ensures
        listed(
            browser_groups(catalog, packages, dirs, home),
            group_title(found_of(catalog, kind)[g], packages, home),
            items_of(found_of(catalog, kind)[g], kind, packages, dirs, home)[e],
        ),
{
    let group = found_of(catalog, kind)[g];
    let t = group_title(group, packages, home);
    let x = items_of(group, kind, packages, dirs, home)[e];
    let skill = ConfigResourceKind::Skill;
    let prompt = ConfigResourceKind::Prompt;
    let theme = ConfigResourceKind::Theme;
    let skills = with_catalog(Seq::empty(), catalog.skills@, skill, packages, dirs, home);
    let prompts = with_catalog(skills, catalog.prompts@, prompt, packages, dirs, home);
    let themes = with_catalog(prompts, catalog.themes@, theme, packages, dirs, home);
    match kind {
        ConfigResourceKind::Skill => {
            catalog_lists(Seq::empty(), catalog.skills@, skill, packages, dirs, home, g, e);
            catalog_keeps(skills, catalog.prompts@, prompt, packages, dirs, home, t, x);
            catalog_keeps(prompts, catalog.themes@, theme, packages, dirs, home, t, x);
        },
        ConfigResourceKind::Prompt => {
            catalog_lists(skills, catalog.prompts@, prompt, packages, dirs, home, g, e);
            catalog_keeps(prompts, catalog.themes@, theme, packages, dirs, home, t, x);
        },
        ConfigResourceKind::Theme => {
            catalog_lists(prompts, catalog.themes@, theme, packages, dirs, home, g, e);
        },
    }
    ordering_keeps(themes, t, x);
}

/// The path of a resource as the settings in a directory name it.
pub open spec fn settings_name(base: Seq<char>, path: Seq<char>) -> Seq<char> {
    text::replace_char(
        match paths::below_dir(paths::parts_of(base), paths::parts_of(path)) {
            Some(parts) => paths::written(parts),
            None => path,
        },
        '\\',
        "/"@,
    )
}

/// The path of a resource as the settings in a directory name it: relative to the directory where
/// it is below it.
pub fn config_browser_settings_path(base_dir: &str, path: &str) -> (r: String)
    ensures
        r@ == settings_name(base_dir@, path@),
{
    match strip_dir(base_dir, path) {
        Some(relative) => replaced_char(relative.as_str(), '\\', "/"),
        None => replaced_char(path, '\\', "/"),
    }
}

/// What switches a resource on or off.
#[derive(Clone, Debug, PartialEq, Eq)]
pub enum ConfigToggle {
    /// The entry of the path in the settings of a scope.
    Setting { scope: SettingsScope, kind: ConfigResourceKind, path: String, enable: bool },
    /// The filters of a package.
    PackageFilter {
        identity: String,
        package_scope: PackageInstallScope,
        package_kind: ConfigResourceKind,
        install_path: String,
        resource_path: String,
        switch_on: bool,
    },
}

/// What switches a resource on or off, as a mathematical value.
pub enum ToggleView {
    Setting { scope: SettingsScope, kind: ConfigResourceKind, path: Seq<char>, enable: bool },
    PackageFilter {
        identity: Seq<char>,
        package_scope: PackageInstallScope,
        package_kind: ConfigResourceKind,
        install_path: Seq<char>,
        resource_path: Seq<char>,
        switch_on: bool,
    },
}

impl View for ConfigToggle {
    type V = ToggleView;

    open spec fn view(&self) -> ToggleView {
        match self {
            ConfigToggle::Setting { scope, kind, path, enable } => ToggleView::Setting {
                scope: *scope,
                kind: *kind,
                path: path@,
                enable: *enable,
            },
            ConfigToggle::PackageFilter {
                identity,
                package_scope,
                package_kind,
                install_path,
                resource_path,
                switch_on,
            } => ToggleView::PackageFilter {
                identity: identity@,
                package_scope: *package_scope,
                package_kind: *package_kind,
                install_path: install_path@,
                resource_path: resource_path@,
                switch_on: *switch_on,
            },
        }
    }
}

/// What turns a resource over: on where it is off, off where it is on.
pub open spec fn toggle_of(item: ResourceView) -> ToggleView {
    match item.owner {
        OwnerView::TopLevel { scope, base_dir } => ToggleView::Setting {
            scope,
            kind: item.kind,
            path: settings_name(base_dir, item.path),
            enable: !item.enabled,
        },
        OwnerView::Package { identity, scope, source, install_path } => ToggleView::PackageFilter {
            identity,
            package_scope: scope,
            package_kind: item.kind,
            install_path,
            resource_path: item.path,
            switch_on: !item.enabled,
        },
    }
}

/// What turns a resource over: on where it is off, off where it is on.
pub fn toggle_config_browser_item(item: &ConfigBrowserItem) -> (r: ConfigToggle)
    ensures
        r@ == toggle_of(item@),
{
    match &item.owner {
        ConfigBrowserOwner::TopLevel { scope, base_dir } => ConfigToggle::Setting {
            scope: *scope,
            kind: item.kind,
            path: config_browser_settings_path(base_dir.as_str(), item.path.as_str()),
            enable: !item.enabled,
        },
        ConfigBrowserOwner::Package { identity, scope, source, install_path } => ConfigToggle::PackageFilter {
            identity: copy_text(identity.as_str()),
            package_scope: *scope,
            package_kind: item.kind,
            install_path: copy_text(install_path.as_str()),
            resource_path: copy_text(item.path.as_str()),
            switch_on: !item.enabled,
        },
    }
}

/// What is said once a resource was turned over.
pub fn toggled_message(item: &ConfigBrowserItem, home: &Option<String>) -> (r: String)
    ensures
        r@ == (if item.enabled {
            "Disabled "@
        } else {
            "Enabled "@
        }) + tools::short_path(item.path@, text::opt_text(*home)),
{
    cat2(
        if item.enabled {
            "Disabled "
        } else {
            "Enabled "
        },
        shorten_home_path(item.path.as_str(), home).as_str(),
    )
}

/// The extensions that the settings of a scope name: their own, and those of each package, where
/// the package's entry names any.
pub struct ExtensionSettings {
    pub extensions: Vec<String>,
    pub package_extensions: Vec<Option<Vec<String>>>,
}

/// Whether the entry of a package names extensions.
pub open spec fn names_extensions(entry: Option<Vec<String>>) -> bool {
    match entry {
        Some(list) => list@.len() > 0,
        None => false,
    }
}

/// Whether the settings of a scope name extensions.
pub open spec fn has_extensions(settings: ExtensionSettings) -> bool {
    settings.extensions@.len() > 0 || exists|i: int|
        0 <= i < settings.package_extensions@.len() && names_extensions(
            #[trigger] settings.package_extensions@[i],
        )
}

fn scope_has_extensions(settings: &ExtensionSettings) -> (r: bool)
    ensures
        r == has_extensions(*settings),
{
    if settings.extensions.len() > 0 {
        return true;
    }
    let mut i: usize = 0;
    while i < settings.package_extensions.len()
        invariant
            0 <= i <= settings.package_extensions.len(),
            forall|j: int|
                0 <= j < i ==> !names_extensions(#[trigger] settings.package_extensions@[j]),
        decreases settings.package_extensions.len() - i,
    {
        if let Some(list) = &settings.package_extensions[i] {
            if list.len() > 0 {
                assert(names_extensions(settings.package_extensions@[i as int]));
                return true;
            }
        }
        i += 1;
    }
    false
}

/// Whether the settings of the project or of the user name extensions.
pub fn config_browser_has_extension_config(project: &ExtensionSettings, global: &ExtensionSettings) -> (r:
    bool)
    ensures
        r == (has_extensions(*project) || has_extensions(*global)),
{
    scope_has_extensions(project) || scope_has_extensions(global)
}

/// Whether a resource is one of a kind that belongs to a package.
pub open spec fn belongs_to(
    item: ResourceView,
    scope: PackageInstallScope,
    source: Seq<char>,
    install_path: Seq<char>,
    kind: ConfigResourceKind,
) -> bool {
    item.kind == kind && match item.owner {
        OwnerView::Package { identity, scope: item_scope, source: item_source, install_path: root } => item_scope
            == scope && item_source == source && paths::parts_of(root) == paths::parts_of(
            install_path,
        ),
        OwnerView::TopLevel { scope: s, base_dir } => false,
    }
}

/// The resources among some that belong to a package.
pub open spec fn package_items(
    items: Seq<ResourceView>,
    scope: PackageInstallScope,
    source: Seq<char>,
    install_path: Seq<char>,
    kind: ConfigResourceKind,
) -> Seq<ResourceView>
    decreases items.len(),
{
    if items.len() == 0 {
        Seq::empty()
    } else {
        let earlier = package_items(items.drop_last(), scope, source, install_path, kind);
        if belongs_to(items.last(), scope, source, install_path, kind) {
            earlier.push(items.last())
        } else {
            earlier
        }
    }
}

/// The resources in the sections of a kind.
pub open spec fn kind_items(sections: Seq<SectionView>, kind: ConfigResourceKind) -> Seq<ResourceView>
    decreases sections.len(),
{
    if sections.len() == 0 {
        Seq::empty()
    } else {
        let earlier = kind_items(sections.drop_last(), kind);
        if sections.last().kind == kind {
            earlier + sections.last().items
        } else {
            earlier
        }
    }
}

/// The resources in the sections of a kind of all groups.
pub open spec fn all_kind_items(groups: Seq<GroupView>, kind: ConfigResourceKind) -> Seq<ResourceView>
    decreases groups.len(),
{
    if groups.len() == 0 {
        Seq::empty()
    } else {
        all_kind_items(groups.drop_last(), kind) + kind_items(groups.last().sections, kind)
    }
}

fn push_copies(out: &mut Vec<ConfigBrowserItem>, items: &Vec<ConfigBrowserItem>)
    ensures
        item_views(final(out)@) == item_views(old(out)@) + item_views(items@),
{
    let ghost start = item_views(out@);
    let ghost all = item_views(items@);
    let mut i: usize = 0;
    assert(start =~= start + all.take(0));
    while i < items.len()
        invariant
            0 <= i <= items.len(),
            all == item_views(items@),
            item_views(out@) == start + all.take(i as int),
        decreases items.len() - i,
    {
        let item = items[i].copy();
        let ghost view = item@;
        let ghost earlier = item_views(out@);
        out.push(item);
        assert(item_views(out@) =~= earlier.push(view));
        i += 1;
        assert(all.take(i as int) =~= all.take(i - 1).push(all[i - 1]));
        assert(item_views(out@) =~= start + all.take(i as int));
    }
    assert(all.take(i as int) =~= all);
}

fn push_kind_items(out: &mut Vec<ConfigBrowserItem>, sections: &Vec<ConfigBrowserSection>, kind: ConfigResourceKind)
    ensures
        item_views(final(out)@) == item_views(old(out)@) + kind_items(
            section_views(sections@),
            kind,
        ),
{
    let ghost start = item_views(out@);
    let ghost all = section_views(sections@);
    let mut i: usize = 0;
    assert(all.take(0) =~= Seq::<SectionView>::empty());
    assert(start =~= start + Seq::<ResourceView>::empty());
    while i < sections.len()
        invariant
            0 <= i <= sections.len(),
            all == section_views(sections@),
            item_views(out@) == start + kind_items(all.take(i as int), kind),
        decreases sections.len() - i,
    {
        assert(all.take(i + 1).drop_last() =~= all.take(i as int));
        assert(all.take(i + 1).last() == sections@[i as int]@);
        if sections[i].kind == kind {
            push_copies(out, &sections[i].items);
        }
        i += 1;
        assert(item_views(out@) =~= start + kind_items(all.take(i as int), kind));
    }
    assert(all.take(i as int) =~= all);
}

fn is_package_item(
    item: &ConfigBrowserItem,
    scope: PackageInstallScope,
    source: &str,
    install_path: &str,
    kind: ConfigResourceKind,
) -> (r: bool)
    ensures
        r == belongs_to(item@, scope, source@, install_path@, kind),
{
    match &item.owner {
        ConfigBrowserOwner::Package { identity, scope: item_scope, source: item_source, install_path: root } => item.kind
            == kind && *item_scope == scope && same(item_source.as_str(), source) && same_path(
            root.as_str(),
            install_path,
        ),
        ConfigBrowserOwner::TopLevel { scope: s, base_dir } => false,
    }
}

/// The resources of a kind that belong to a package.
pub fn config_browser_group_items(
    data: &ConfigBrowserData,
    scope: PackageInstallScope,
    source: &str,
    install_path: &str,
    kind: ConfigResourceKind,
) -> (r: Vec<ConfigBrowserItem>)
    ensures
        item_views(r@) == package_items(
            all_kind_items(group_views(data.groups@), kind),
            scope,
            source@,
            install_path@,
            kind,
        ),
{
    let ghost all = group_views(data.groups@);
    let mut items: Vec<ConfigBrowserItem> = Vec::new();
    let mut i: usize = 0;
    assert(all.take(0) =~= Seq::<GroupView>::empty());
    assert(item_views(items@) =~= Seq::<ResourceView>::empty());
    while i < data.groups.len()
        invariant
            0 <= i <= data.groups.len(),
            all == group_views(data.groups@),
            item_views(items@) == all_kind_items(all.take(i as int), kind),
        decreases data.groups.len() - i,
    {
        assert(all.take(i + 1).drop_last() =~= all.take(i as int));
        assert(all.take(i + 1).last() == data.groups@[i as int]@);
        push_kind_items(&mut items, &data.groups[i].sections, kind);
        i += 1;
    }
    assert(all.take(i as int) =~= all);
    let ghost found = item_views(items@);
    let mut out: Vec<ConfigBrowserItem> = Vec::new();
    let mut j: usize = 0;
    assert(found.take(0) =~= Seq::<ResourceView>::empty());
    assert(item_views(out@) =~= Seq::<ResourceView>::empty());
    while j < items.len()
        invariant
            0 <= j <= items.len(),
            found == item_views(items@),
            item_views(out@) == package_items(
                found.take(j as int),
                scope,
                source@,
                install_path@,
                kind,
            ),
        decreases items.len() - j,
    {
        assert(found.take(j + 1).drop_last() =~= found.take(j as int));
        if is_package_item(&items[j], scope, source, install_path, kind) {
            let item = items[j].copy();
            let ghost view = item@;
            let ghost earlier = item_views(out@);
            out.push(item);
            assert(item_views(out@) =~= earlier.push(view));
        }
        j += 1;
    }
    assert(found.take(j as int) =~= found);
    out
}

/// Choosing a resource turns it over, in the settings of its own scope or in the filters of its own
/// package, and no other.
pub proof fn choosing_turns_over(item: ResourceView)
    ensures
        item.owner matches OwnerView::TopLevel { scope, base_dir } ==> (toggle_of(item) matches
            ToggleView::Setting { scope: chosen, kind, path, enable } && chosen == scope && kind
            == item.kind && path == settings_name(base_dir, item.path) && enable != item.enabled),
        item.owner matches OwnerView::Package { identity, scope, source, install_path } ==> (
        toggle_of(item) matches ToggleView::PackageFilter {
            identity: chosen,
            package_scope,
            package_kind,
            install_path: place,
            resource_path,
            switch_on,
        } && chosen == identity && package_scope == scope && package_kind == item.kind && place
            == install_path && resource_path == item.path && switch_on != item.enabled),
        toggle_of(ResourceView { enabled: !item.enabled, ..item }) != toggle_of(item),
{
}

/// The resources of a package are found among others, all of them and in order.
pub proof fn package_items_in_two(
    a: Seq<ResourceView>,
    b: Seq<ResourceView>,
    scope: PackageInstallScope,
    source: Seq<char>,
    install_path: Seq<char>,
    kind: ConfigResourceKind,
)
    ensures
        package_items(a + b, scope, source, install_path, kind) == package_items(
            a,
            scope,
            source,
            install_path,
            kind,
        ) + package_items(b, scope, source, install_path, kind),
    decreases b.len(),
{
    if b.len() == 0 {
        assert(a + b =~= a);
        assert(package_items(a, scope, source, install_path, kind) + package_items(
            b,
            scope,
            source,
            install_path,
            kind,
        ) =~= package_items(a, scope, source, install_path, kind));
    } else {
        package_items_in_two(a, b.drop_last(), scope, source, install_path, kind);
        assert((a + b).drop_last() =~= a + b.drop_last());
        assert((a + b).last() == b.last());
        assert(package_items(a + b, scope, source, install_path, kind) =~= package_items(
            a,
            scope,
            source,
            install_path,
            kind,
        ) + package_items(b, scope, source, install_path, kind));
    }
}

/// A resource belongs to the package that it comes from.
pub proof fn package_items_belong(item: ResourceView, kind: ConfigResourceKind)
    ensures
        item.owner matches OwnerView::Package { identity, scope, source, install_path } ==> (item.kind
            == kind ==> package_items(seq![item], scope, source, install_path, kind) == seq![item])
            && (item.kind != kind ==> package_items(
            seq![item],
            scope,
            source,
            install_path,
            kind,
        ).len() == 0),
{
    let none = Seq::<ResourceView>::empty();
    assert(seq![item].drop_last() =~= none);
    assert(seq![item].last() == item);
    assert(none.push(item) =~= seq![item]);
    if let OwnerView::Package { identity, scope, source, install_path } = item.owner {
        assert(package_items(none, scope, source, install_path, kind) =~= none);
    }
}

/// The resources of one kind in two runs of groups are those of the first, then those of the
/// second.
pub proof fn kinds_in_two(
    a: Seq<GroupView>,
    b: Seq<GroupView>,
    c: Seq<SectionView>,
    d: Seq<SectionView>,
    kind: ConfigResourceKind,
)
    ensures
        all_kind_items(a + b, kind) == all_kind_items(a, kind) + all_kind_items(b, kind),
        kind_items(c + d, kind) == kind_items(c, kind) + kind_items(d, kind),
    decreases b.len() + d.len(),
{
    if b.len() == 0 {
        assert(a + b =~= a);
        assert(all_kind_items(a, kind) + all_kind_items(b, kind) =~= all_kind_items(a, kind));
    } else {
        assert((a + b).drop_last() =~= a + b.drop_last());
        kinds_in_two(a, b.drop_last(), c, d, kind);
        assert(all_kind_items(a + b, kind) =~= all_kind_items(a, kind) + all_kind_items(b, kind));
    }
    if d.len() == 0 {
        assert(c + d =~= c);
        assert(kind_items(c, kind) + kind_items(d, kind) =~= kind_items(c, kind));
    } else {
        assert((c + d).drop_last() =~= c + d.drop_last());
        kinds_in_two(a, b, c, d.drop_last(), kind);
        assert(kind_items(c + d, kind) =~= kind_items(c, kind) + kind_items(d, kind));
    }
}

/// A section holds resources of its own kind and of no other.
pub proof fn sections_hold_one_kind(section: SectionView, kind: ConfigResourceKind)
    ensures
        section.kind == kind ==> kind_items(seq![section], kind) == section.items,
        section.kind != kind ==> kind_items(seq![section], kind).len() == 0,
{
    reveal_with_fuel(kind_items, 2);
    assert(seq![section].drop_last() =~= Seq::<SectionView>::empty());
    assert(section.kind == kind ==> kind_items(seq![section], kind) =~= section.items);
}

/// There are extensions exactly if the settings name some, or those of a package do.
pub proof fn extensions_are_noticed(settings: ExtensionSettings)
    ensures
        settings.extensions@.len() > 0 ==> has_extensions(settings),
        settings.extensions@.len() == 0 && settings.package_extensions@.len() == 0
            ==> !has_extensions(settings),
{
}

/// The stem of a file name is what stands before its last dot, unless the name begins there.
pub proof fn stems_end_at_the_last_dot(base: Seq<char>, extension: Seq<char>)
    requires
        !extension.contains('.'),
    ensures
        base.len() > 0 ==> stem(base + seq!['.'] + extension) == base,
        stem(seq!['.'] + extension) == seq!['.'] + extension,
        stem(extension) == extension,
{
    last_dot(base + seq!['.'], extension);
    last_dot(seq!['.'], extension);
    last_dot(Seq::empty(), extension);
    let whole = base + seq!['.'] + extension;
    assert(whole.take(base.len() as int) =~= base);
    assert((base + seq!['.']).drop_last() =~= base);
    assert(Seq::<char>::empty() + extension =~= extension);
}

proof fn last_dot(head: Seq<char>, extension: Seq<char>)
    requires
        !extension.contains('.'),
    ensures
        last_place(head + extension, '.') == last_place(head, '.'),
    decreases extension.len(),
{
    if extension.len() == 0 {
        assert(head + extension =~= head);
    } else {
        let rest = extension.drop_last();
        assert(extension.last() != '.') by {
            assert(extension[extension.len() - 1] == extension.last());
        }
        assert(!rest.contains('.')) by {
            if rest.contains('.') {
                let k = choose|k: int| 0 <= k < rest.len() && rest[k] == '.';
                assert(extension[k] == '.');
            }
        }
        assert((head + extension).drop_last() =~= head + rest);
        last_dot(head, rest);
    }
}

} // verus!
