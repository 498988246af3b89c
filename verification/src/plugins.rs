//! Plugin roots and plugin diagnostics.
use vstd::prelude::*;
use crate::paths;
use crate::text;
use crate::text::{cat2, cat3, cat4, copy_text, copy_texts, decimal_text, extend_texts, holds_text, join_texts, same};

verus! {

broadcast use crate::text::group_texts;

/// The settings that a root is stored in.
#[derive(Clone, Copy, Debug, PartialEq, Eq, Structural)]
pub enum SettingsScope {
    Global,
    Project,
}

/// What a scope is called.
pub open spec fn scope_label(scope: SettingsScope) -> Seq<char> {
    match scope {
        SettingsScope::Global => "user"@,
        SettingsScope::Project => "project"@,
    }
}

/// What a scope is called.
pub fn plugin_scope_label(scope: SettingsScope) -> (r: &'static str)
    ensures
        r@ == scope_label(scope),
{
    match scope {
        SettingsScope::Global => "user",
        SettingsScope::Project => "project",
    }
}

/// The texts of a sequence, each at its first place only.
pub open spec fn distinct(list: Seq<Seq<char>>) -> Seq<Seq<char>>
    decreases list.len(),
{
    if list.len() == 0 {
        list
    } else {
        let before = distinct(list.drop_last());
        if before.contains(list.last()) {
            before
        } else {
            before.push(list.last())
        }
    }
}

/// Adds a root where it is not there yet.
pub fn append_unique_root(roots: &mut Vec<String>, root: &str)
    ensures
        text::texts(final(roots)@) == (if text::texts(old(roots)@).contains(root@) {
            text::texts(old(roots)@)
        } else {
            text::texts(old(roots)@).push(root@)
        }),
{
    if !holds_text(roots.as_slice(), root) {
        roots.push(copy_text(root));
    }
}

/// The roots in which plugins are looked for: those of the project's packages, the user's packages,
/// the project's settings and the user's settings, in this order, each root once.
pub fn build_plugin_discovery_roots(
    project_packages: &[String],
    user_packages: &[String],
    project_roots: &[String],
    user_roots: &[String],
) -> (r: Vec<String>)
    ensures
        text::texts(r@) == distinct(
            text::texts(project_packages@) + text::texts(user_packages@) + text::texts(
                project_roots@,
            ) + text::texts(user_roots@),
        ),
{
    let mut all = copy_texts(project_packages);
    extend_texts(&mut all, user_packages);
    extend_texts(&mut all, project_roots);
    extend_texts(&mut all, user_roots);
    let ghost whole = text::texts(all@);
    let mut roots: Vec<String> = Vec::new();
    let mut i: usize = 0;
    assert(whole.take(0) =~= Seq::<Seq<char>>::empty());
    while i < all.len()
        invariant
            0 <= i <= all.len(),
            whole == text::texts(all@),
            text::texts(roots@) == distinct(whole.take(i as int)),
        decreases all.len() - i,
    {
        assert(whole.take(i + 1).drop_last() =~= whole.take(i as int));
        append_unique_root(&mut roots, all[i].as_str());
        i += 1;
    }
    assert(whole.take(i as int) =~= whole);
    roots
}

/// Discovery roots hold what was given, and nothing twice.
pub proof fn discovery_roots_are_distinct(list: Seq<Seq<char>>)
    ensures
        distinct(list).no_duplicates(),
        forall|root: Seq<char>| #[trigger] distinct(list).contains(root) <==> list.contains(root),
    decreases list.len(),
{
    if list.len() > 0 {
        let front = list.drop_last();
        let before = distinct(front);
        discovery_roots_are_distinct(front);
        assert forall|root: Seq<char>| #[trigger]
            distinct(list).contains(root) <==> list.contains(root) by {
            if list.contains(root) {
                let i = choose|i: int| 0 <= i < list.len() && list[i] == root;
                if i < front.len() {
                    assert(front[i] == root);
                    assert(before.contains(root));
                    let k = choose|k: int| 0 <= k < before.len() && before[k] == root;
                    assert(distinct(list)[k] == root);
                } else if before.contains(list.last()) {
                    let k = choose|k: int| 0 <= k < before.len() && before[k] == root;
                    assert(distinct(list)[k] == root);
                } else {
                    assert(distinct(list)[before.len() as int] == root);
                }
            }
            if distinct(list).contains(root) {
                let k = choose|k: int| 0 <= k < distinct(list).len() && distinct(list)[k] == root;
                if k < before.len() {
                    assert(before[k] == root);
                    assert(before.contains(root));
                    assert(front.contains(root));
                    let i = choose|i: int| 0 <= i < front.len() && front[i] == root;
                    assert(list[i] == root);
                } else {
                    assert(list[list.len() - 1] == root);
                }
            }
        }
    }
}

/// A root that comes earlier in the search stays earlier: adding roots at the end keeps the order
/// of those before.
pub proof fn discovery_order_is_kept(list: Seq<Seq<char>>, more: Seq<Seq<char>>)
    ensures
        distinct(list).len() <= distinct(list + more).len(),
        distinct(list + more).take(distinct(list).len() as int) == distinct(list),
    decreases more.len(),
{
    if more.len() == 0 {
        assert(list + more =~= list);
        assert(distinct(list).take(distinct(list).len() as int) =~= distinct(list));
    } else {
        let fewer = more.drop_last();
        discovery_order_is_kept(list, fewer);
        assert((list + more).drop_last() =~= list + fewer);
        let whole = distinct(list + more);
        let before = distinct(list + fewer);
        assert(whole.take(distinct(list).len() as int) =~= before.take(
            distinct(list).len() as int,
        ));
    }
}

/// The entries of a list of roots that do not resolve to a given path.
pub open spec fn other_roots(
    roots: Seq<Seq<char>>,
    resolved: Seq<Seq<char>>,
    path: Seq<char>,
) -> Seq<Seq<char>>
    decreases roots.len(),
{
    if roots.len() == 0 || resolved.len() != roots.len() {
        Seq::empty()
    } else {
        let before = other_roots(roots.drop_last(), resolved.drop_last(), path);
        if resolved.last() == path {
            before
        } else {
            before.push(roots.last())
        }
    }
}

/// The roots after one was added; nothing where one of them resolves to the path already.
pub open spec fn roots_with(
    roots: Seq<Seq<char>>,
    resolved: Seq<Seq<char>>,
    path: Seq<char>,
    stored: Seq<char>,
) -> Option<Seq<Seq<char>>> {
    if resolved.contains(path) {
        None
    } else {
        Some(roots.push(stored))
    }
}

/// The roots after those that resolve to a path were removed; nothing where there was none.
pub open spec fn roots_without(
    roots: Seq<Seq<char>>,
    resolved: Seq<Seq<char>>,
    path: Seq<char>,
) -> Option<Seq<Seq<char>>> {
    if resolved.contains(path) {
        Some(other_roots(roots, resolved, path))
    } else {
        None
    }
}

/// An optional list of roots, as a mathematical value.
pub open spec fn opt_roots(roots: Option<Vec<String>>) -> Option<Seq<Seq<char>>> {
    match roots {
        Some(list) => Some(text::texts(list@)),
        None => None,
    }
}

/// The roots after one was added: `resolved` says what each root resolves to, `path` what the new
/// one resolves to, `stored` how it is stored. Nothing where it was there before.
pub fn add_plugin_root(roots: &[String], resolved: &[String], path: &str, stored: &str) -> (r:
    Option<Vec<String>>)
    ensures
        opt_roots(r) == roots_with(text::texts(roots@), text::texts(resolved@), path@, stored@),
{
    if holds_text(resolved, path) {
        return None;
    }
    let mut after = copy_texts(roots);
    after.push(copy_text(stored));
    Some(after)
}

/// The roots after those that resolve to `path` were removed, or nothing where there was none.
pub fn remove_plugin_root(roots: &[String], resolved: &[String], path: &str) -> (r: Option<
    Vec<String>,
>)
    requires
        roots@.len() == resolved@.len(),
    ensures
        opt_roots(r) == roots_without(text::texts(roots@), text::texts(resolved@), path@),
{
    if !holds_text(resolved, path) {
        return None;
    }
    let ghost all = text::texts(roots@);
    let ghost places = text::texts(resolved@);
    let mut after: Vec<String> = Vec::new();
    let mut i: usize = 0;
    while i < roots.len()
        invariant
            0 <= i <= roots.len(),
            roots@.len() == resolved@.len(),
            all == text::texts(roots@),
            places == text::texts(resolved@),
            text::texts(after@) == other_roots(all.take(i as int), places.take(i as int), path@),
        decreases roots.len() - i,
    {
        assert(all.take(i + 1).drop_last() =~= all.take(i as int));
        assert(places.take(i + 1).drop_last() =~= places.take(i as int));
        if !same(resolved[i].as_str(), path) {
            after.push(copy_text(roots[i].as_str()));
        }
        i += 1;
    }
    assert(all.take(i as int) =~= all);
    assert(places.take(i as int) =~= places);
    Some(after)
}

proof fn other_roots_all(roots: Seq<Seq<char>>, resolved: Seq<Seq<char>>, path: Seq<char>)
    requires
        roots.len() == resolved.len(),
        !resolved.contains(path),
    ensures
        other_roots(roots, resolved, path) == roots,
    decreases roots.len(),
{
    if roots.len() > 0 {
        assert(!resolved.drop_last().contains(path)) by {
            if resolved.drop_last().contains(path) {
                let i = choose|i: int|
                    0 <= i < resolved.drop_last().len() && resolved.drop_last()[i] == path;
                assert(resolved[i] == path);
            }
        }
        other_roots_all(roots.drop_last(), resolved.drop_last(), path);
        assert(resolved[resolved.len() - 1] != path);
        assert(other_roots(roots, resolved, path) =~= roots);
    }
}

/// Removing a root undoes adding it.
pub proof fn remove_undoes_add(
    roots: Seq<Seq<char>>,
    resolved: Seq<Seq<char>>,
    path: Seq<char>,
    stored: Seq<char>,
)
    requires
        roots.len() == resolved.len(),
        !resolved.contains(path),
    ensures
        other_roots(roots.push(stored), resolved.push(path), path) == roots,
{
    other_roots_all(roots, resolved, path);
    assert(roots.push(stored).drop_last() =~= roots);
    assert(resolved.push(path).drop_last() =~= resolved);
}

/// What each root of settings in a directory resolves to, as it is written down.
pub open spec fn resolved_roots(base_dir: Seq<char>, roots: Seq<Seq<char>>) -> Seq<Seq<char>> {
    Seq::new(roots.len(), |i: int| paths::written(paths::resolved(base_dir, roots[i])))
}

/// Removing a root undoes adding it, on the texts as they are stored. A value that means a root which
/// none of the roots resolves to is stored as a text that leads from the directory of the settings to
/// the root. That text resolves to the root again: removing the value finds it, says so, and leaves
/// the roots as they were. An absolute directory of settings needs an absolute root, and no backslash
/// may stand in the path between them; elsewhere the stored text means another path.
pub proof fn remove_undoes_add_as_stored(
    base_dir: Seq<char>,
    cwd: Seq<char>,
    value: Seq<char>,
    scope: SettingsScope,
    roots: Seq<Seq<char>>,
)
    requires
        text::starts_with_char(base_dir, '/') ==> text::starts_with_char(cwd, '/')
            || text::starts_with_char(value, '/'),
        !paths::path_to_root(base_dir, paths::written(paths::resolved(cwd, value))).contains('\\'),
        !resolved_roots(base_dir, roots).contains(paths::written(paths::resolved(cwd, value))),
    ensures
        ({
            let root = paths::written(paths::resolved(cwd, value));
            let stored = paths::stored_root(base_dir, root);
            let after = roots_with(roots, resolved_roots(base_dir, roots), root, stored);
            let back = roots_without(after->0, resolved_roots(base_dir, after->0), root);
            &&& after == Some(roots.push(stored))
            &&& back == Some(roots)
            &&& removal_message(value, scope, back is Some) == Ok::<Seq<char>, Seq<char>>(
                "Removed plugin root "@ + value + " from "@ + scope_label(scope) + " settings."@,
            )
        }),
{
    let root = paths::written(paths::resolved(cwd, value));
    let stored = paths::stored_root(base_dir, root);
    let after = roots.push(stored);
    paths::resolved_root_reads_back(cwd, value);
    paths::stored_root_leads_back(base_dir, root);
    let found = resolved_roots(base_dir, after);
    assert(found =~= resolved_roots(base_dir, roots).push(root));
    assert(found[roots.len() as int] == root);
    remove_undoes_add(roots, resolved_roots(base_dir, roots), root, stored);
}

/// What is told after a root was added or was there already.
pub fn plugin_root_added_message(value: &str, scope: SettingsScope) -> (r: String)
    ensures
        r@ == "Added plugin root "@ + value@ + " to "@ + scope_label(scope) + " settings."@,
{
    text::cat5("Added plugin root ", value, " to ", plugin_scope_label(scope), " settings.")
}

/// What is told after a root was removed, or where there was none.
pub open spec fn removal_message(value: Seq<char>, scope: SettingsScope, removed: bool) -> Result<
    Seq<char>,
    Seq<char>,
> {
    if removed {
        Ok("Removed plugin root "@ + value + " from "@ + scope_label(scope) + " settings."@)
    } else {
        Err("No matching plugin root found for "@ + value + "."@)
    }
}

/// What is told after a root was removed, or where there was none.
pub fn plugin_root_removed_message(value: &str, scope: SettingsScope, removed: bool) -> (r: Result<
    String,
    String,
>)
    ensures
        (match r {
            Ok(message) => Ok::<Seq<char>, Seq<char>>(message@),
            Err(message) => Err(message@),
        }) == removal_message(value@, scope, removed),
{
    if removed {
        Ok(
            text::cat5(
                "Removed plugin root ",
                value,
                " from ",
                plugin_scope_label(scope),
                " settings.",
            ),
        )
    } else {
        Err(cat3("No matching plugin root found for ", value, "."))
    }
}

/// A plugin that was loaded, with the number of things of each sort that it registered.
#[derive(Clone, Debug, PartialEq, Eq)]
pub struct PluginSummary {
    pub descriptor_path: String,
    pub plugin_id: String,
    pub plugin_name: String,
    pub manifest_version: u32,
    pub command_count: usize,
    pub tool_count: usize,
    pub flag_count: usize,
    pub hook_count: usize,
    pub provider_count: usize,
    pub model_count: usize,
}

/// Something that went wrong with a plugin.
#[derive(Clone, Debug, PartialEq, Eq)]
pub struct PluginWarning {
    pub path: Option<String>,
    pub plugin_id: Option<String>,
    pub plugin_name: Option<String>,
    pub message: String,
}

/// A count with its noun, in a list of at most one; nothing for zero.
pub open spec fn counted(count: nat, label: Seq<char>) -> Seq<Seq<char>> {
    if count == 0 {
        Seq::empty()
    } else if count == 1 {
        seq![text::decimal(count) + " "@ + label]
    } else {
        seq![text::decimal(count) + " "@ + label + "s"@]
    }
}

fn push_capability_count(target: &mut Vec<String>, count: usize, label: &str)
    ensures
        text::texts(final(target)@) == text::texts(old(target)@) + counted(count as nat, label@),
{
    if count == 0 {
        return;
    }
    let number = decimal_text(count as u64);
    if count == 1 {
        target.push(cat3(number.as_str(), " ", label));
    } else {
        target.push(cat4(number.as_str(), " ", label, "s"));
    }
}

/// What a plugin registered.
pub open spec fn capabilities(plugin: PluginSummary) -> Seq<char> {
    let items = counted(plugin.command_count as nat, "command"@) + counted(
        plugin.tool_count as nat,
        "tool"@,
    ) + counted(plugin.flag_count as nat, "flag"@) + counted(plugin.hook_count as nat, "hook"@)
        + counted(plugin.provider_count as nat, "provider"@) + counted(
        plugin.model_count as nat,
        "model"@,
    );
    if items.len() == 0 {
        "no capabilities"@
    } else {
        text::join(items, ", "@)
    }
}

/// What a plugin registered.
pub fn render_plugin_capabilities(plugin: &PluginSummary) -> (r: String)
    ensures
        r@ == capabilities(*plugin),
{
    let mut items: Vec<String> = Vec::new();
    push_capability_count(&mut items, plugin.command_count, "command");
    assert(text::texts(items@) =~= counted(plugin.command_count as nat, "command"@));
    push_capability_count(&mut items, plugin.tool_count, "tool");
    push_capability_count(&mut items, plugin.flag_count, "flag");
    push_capability_count(&mut items, plugin.hook_count, "hook");
    push_capability_count(&mut items, plugin.provider_count, "provider");
    push_capability_count(&mut items, plugin.model_count, "model");
    if items.len() == 0 {
        copy_text("no capabilities")
    } else {
        join_texts(items.as_slice(), ", ")
    }
}

/// A warning as one line.
pub open spec fn warning_line(warning: PluginWarning) -> Seq<char> {
    let plugin = match warning.plugin_name {
        Some(name) => name@,
        None => match warning.plugin_id {
            Some(id) => id@,
            None => "unknown plugin"@,
        },
    };
    match warning.path {
        Some(path) => "  "@ + plugin + " - "@ + path@ + ": "@ + warning.message@,
        None => "  "@ + plugin + ": "@ + warning.message@,
    }
}

/// A warning as one line.
pub fn render_plugin_warning(warning: &PluginWarning) -> (r: String)
    ensures
        r@ == warning_line(*warning),
{
    let plugin = match &warning.plugin_name {
        Some(name) => name.as_str(),
        None => match &warning.plugin_id {
            Some(id) => id.as_str(),
            None => "unknown plugin",
        },
    };
    match &warning.path {
        Some(path) => {
            let head = text::cat5("  ", plugin, " - ", path.as_str(), ": ");
            cat2(head.as_str(), warning.message.as_str())
        },
        None => cat4("  ", plugin, ": ", warning.message.as_str()),
    }
}

/// A plugin as one line.
pub open spec fn plugin_line(plugin: PluginSummary) -> Seq<char> {
    "  "@ + plugin.plugin_name@ + " ["@ + plugin.plugin_id@ + "] v"@ + text::decimal(
        plugin.manifest_version as nat,
    ) + " - "@ + capabilities(plugin) + " - "@ + plugin.descriptor_path@
}

fn render_plugin_line(plugin: &PluginSummary) -> (r: String)
    ensures
        r@ == plugin_line(*plugin),
{
    let mut out = text::cat5(
        "  ",
        plugin.plugin_name.as_str(),
        " [",
        plugin.plugin_id.as_str(),
        "] v",
    );
    out.append(decimal_text(plugin.manifest_version as u64).as_str());
    out.append(" - ");
    out.append(render_plugin_capabilities(plugin).as_str());
    out.append(" - ");
    out.append(plugin.descriptor_path.as_str());
    out
}

/// The diagnostics as text: the plugins, then the warnings where there are any.
pub open spec fn diagnostics_text(
    plugins: Seq<PluginSummary>,
    warnings: Seq<PluginWarning>,
) -> Seq<char> {
    let first = if plugins.len() == 0 {
        seq!["No plugins discovered."@]
    } else {
        seq!["Plugins:"@] + plugins.map_values(|plugin: PluginSummary| plugin_line(plugin))
    };
    let second = if warnings.len() == 0 {
        Seq::empty()
    } else {
        seq![Seq::empty(), "Warnings:"@] + warnings.map_values(
            |warning: PluginWarning| warning_line(warning),
        )
    };
    text::join(first + second, "\n"@)
}

/// The diagnostics as text.
pub fn render_plugin_runtime_diagnostics_text(
    plugins: &[PluginSummary],
    warnings: &[PluginWarning],
) -> (r: String)
    ensures
        r@ == diagnostics_text(plugins@, warnings@),
{
    let mut lines: Vec<String> = Vec::new();
    let ghost shown = plugins@.map_values(|plugin: PluginSummary| plugin_line(plugin));
    let ghost warned = warnings@.map_values(|warning: PluginWarning| warning_line(warning));
    let ghost mut first: Seq<Seq<char>> = seq!["No plugins discovered."@];
    if plugins.len() == 0 {
        lines.push(copy_text("No plugins discovered."));
        assert(text::texts(lines@) =~= first);
    } else {
        lines.push(copy_text("Plugins:"));
        let mut i: usize = 0;
        assert(text::texts(lines@) =~= seq!["Plugins:"@] + shown.take(0));
        while i < plugins.len()
            invariant
                0 <= i <= plugins.len(),
                shown == plugins@.map_values(|plugin: PluginSummary| plugin_line(plugin)),
                text::texts(lines@) == seq!["Plugins:"@] + shown.take(i as int),
            decreases plugins.len() - i,
        {
            lines.push(render_plugin_line(&plugins[i]));
            i += 1;
            assert(shown.take(i as int) =~= shown.take(i - 1).push(shown[i - 1]));
            assert(text::texts(lines@) =~= seq!["Plugins:"@] + shown.take(i as int));
        }
        assert(shown.take(i as int) =~= shown);
        proof {
            first = seq!["Plugins:"@] + shown;
        }
    }
    let ghost mut second: Seq<Seq<char>> = Seq::empty();
    assert(text::texts(lines@) =~= first + second);
    if warnings.len() > 0 {
        lines.push(String::new());
        lines.push(copy_text("Warnings:"));
        let ghost head = seq![Seq::<char>::empty(), "Warnings:"@];
        let mut i: usize = 0;
        assert(text::texts(lines@) =~= first + (head + warned.take(0)));
        while i < warnings.len()
            invariant
                0 <= i <= warnings.len(),
                warned == warnings@.map_values(|warning: PluginWarning| warning_line(warning)),
                text::texts(lines@) == first + (head + warned.take(i as int)),
            decreases warnings.len() - i,
        {
            lines.push(render_plugin_warning(&warnings[i]));
            i += 1;
            assert(warned.take(i as int) =~= warned.take(i - 1).push(warned[i - 1]));
            assert(text::texts(lines@) =~= first + (head + warned.take(i as int)));
        }
        assert(warned.take(i as int) =~= warned);
        proof {
            second = head + warned;
        }
    }
    join_texts(lines.as_slice(), "\n")
}

/// How many there are of something is told unless there are none, in the singular for one alone.
pub proof fn counts_are_told(count: nat, label: Seq<char>)
    ensures
        counted(0, label).len() == 0,
        counted(1, label) == seq![seq!['1', ' '] + label],
        count > 1 ==> counted(count, label) == seq![
            text::decimal(count) + seq![' '] + label + seq!['s'],
        ],
{
    reveal_strlit(" ");
    reveal_strlit("s");
    assert(" "@ =~= seq![' ']);
    assert("s"@ =~= seq!['s']);
    assert(text::digit(1) == '1');
    assert(text::decimal(1) =~= seq!['1']);
    assert(seq!['1'] + seq![' '] + label =~= seq!['1', ' '] + label);
}

/// Every plugin and every warning has its line among the diagnostics, in its place.
pub proof fn plugins_are_listed(plugins: Seq<PluginSummary>, warnings: Seq<PluginWarning>)
    ensures
        plugins.len() > 0 && warnings.len() == 0 ==> diagnostics_text(plugins, warnings)
            == text::join(
            seq!["Plugins:"@] + Seq::new(plugins.len(), |i: int| plugin_line(plugins[i])),
            "\n"@,
        ),
        plugins.len() > 0 && warnings.len() > 0 ==> diagnostics_text(plugins, warnings)
            == text::join(
            seq!["Plugins:"@] + Seq::new(plugins.len(), |i: int| plugin_line(plugins[i])) + seq![
                Seq::empty(),
                "Warnings:"@,
            ] + Seq::new(warnings.len(), |i: int| warning_line(warnings[i])),
            "\n"@,
        ),
        plugins.len() == 0 && warnings.len() == 0 ==> diagnostics_text(plugins, warnings)
            == "No plugins discovered."@,
{
    let listed = seq!["Plugins:"@] + Seq::new(plugins.len(), |i: int| plugin_line(plugins[i]));
    let warned = Seq::new(warnings.len(), |i: int| warning_line(warnings[i]));
    let none = Seq::<Seq<char>>::empty();
    assert(plugins.map_values(|plugin: PluginSummary| plugin_line(plugin)) =~= Seq::new(
        plugins.len(),
        |i: int| plugin_line(plugins[i]),
    ));
    assert(warnings.map_values(|warning: PluginWarning| warning_line(warning)) =~= warned);
    assert(listed + none =~= listed);
    assert(listed + (seq![Seq::empty(), "Warnings:"@] + warned) =~= listed + seq![
        Seq::empty(),
        "Warnings:"@,
    ] + warned);
    let alone = seq!["No plugins discovered."@];
    assert(alone + none =~= alone);
}

/// The line of a plugin begins with its name and identifier and ends with where it stands; a
/// warning names the plugin as well as it can and ends with what it says.
pub proof fn plugins_are_named(plugin: PluginSummary, warning: PluginWarning)
    ensures
        text::has_prefix(
            plugin_line(plugin),
            seq![' ', ' '] + plugin.plugin_name@ + seq![' ', '['] + plugin.plugin_id@ + seq![']'],
        ),
        text::has_suffix(plugin_line(plugin), plugin.descriptor_path@),
        text::has_suffix(warning_line(warning), warning.message@),
        warning.plugin_name matches Some(name) ==> text::has_prefix(
            warning_line(warning),
            seq![' ', ' '] + name@,
        ),
        warning.plugin_name is None ==> (warning.plugin_id matches Some(id) ==> text::has_prefix(
            warning_line(warning),
            seq![' ', ' '] + id@,
        )),
{
    reveal_strlit("  ");
    reveal_strlit(" [");
    reveal_strlit("] v");
    let line = plugin_line(plugin);
    let head = seq![' ', ' '] + plugin.plugin_name@ + seq![' ', '['] + plugin.plugin_id@ + seq![
        ']',
    ];
    assert(line.take(head.len() as int) =~= head);
    assert(line.skip(line.len() - plugin.descriptor_path@.len()) =~= plugin.descriptor_path@);
    let told = warning_line(warning);
    assert(told.skip(told.len() - warning.message@.len()) =~= warning.message@);
    if let Some(name) = warning.plugin_name {
        let start = seq![' ', ' '] + name@;
        assert(told.take(start.len() as int) =~= start);
    } else if let Some(id) = warning.plugin_id {
        let start = seq![' ', ' '] + id@;
        assert(told.take(start.len() as int) =~= start);
    }
}

/// Every kind of thing that a plugin brings is told, in one order.
pub proof fn capabilities_are_told(plugin: PluginSummary)
    ensures
        plugin.command_count > 1 && plugin.tool_count > 1 && plugin.flag_count > 1
            && plugin.hook_count > 1 && plugin.provider_count > 1 && plugin.model_count > 1
            ==> capabilities(plugin) == text::join(
            seq![
                text::decimal(plugin.command_count as nat) + " "@ + "command"@ + "s"@,
                text::decimal(plugin.tool_count as nat) + " "@ + "tool"@ + "s"@,
                text::decimal(plugin.flag_count as nat) + " "@ + "flag"@ + "s"@,
                text::decimal(plugin.hook_count as nat) + " "@ + "hook"@ + "s"@,
                text::decimal(plugin.provider_count as nat) + " "@ + "provider"@ + "s"@,
                text::decimal(plugin.model_count as nat) + " "@ + "model"@ + "s"@,
            ],
            ", "@,
        ),
        plugin.command_count == 0 && plugin.tool_count == 0 && plugin.flag_count == 0
            && plugin.hook_count == 0 && plugin.provider_count == 0 && plugin.model_count == 0
            ==> capabilities(plugin) == "no capabilities"@,
{
    if plugin.command_count > 1 && plugin.tool_count > 1 && plugin.flag_count > 1
        && plugin.hook_count > 1 && plugin.provider_count > 1 && plugin.model_count > 1 {
        let items = counted(plugin.command_count as nat, "command"@) + counted(
            plugin.tool_count as nat,
            "tool"@,
        ) + counted(plugin.flag_count as nat, "flag"@) + counted(plugin.hook_count as nat, "hook"@)
            + counted(plugin.provider_count as nat, "provider"@) + counted(
            plugin.model_count as nat,
            "model"@,
        );
        assert(items =~= seq![
            text::decimal(plugin.command_count as nat) + " "@ + "command"@ + "s"@,
            text::decimal(plugin.tool_count as nat) + " "@ + "tool"@ + "s"@,
            text::decimal(plugin.flag_count as nat) + " "@ + "flag"@ + "s"@,
            text::decimal(plugin.hook_count as nat) + " "@ + "hook"@ + "s"@,
            text::decimal(plugin.provider_count as nat) + " "@ + "provider"@ + "s"@,
            text::decimal(plugin.model_count as nat) + " "@ + "model"@ + "s"@,
        ]);
    }
}

} // verus!
