//! The command line: how arguments are cut into items, and what the items ask for.
use vstd::prelude::*;
use crate::text;
use crate::text::{begins_with, begins_with_char, copy_text, same, split_text, trimmed, trimmed_start_char, trimmed_start_dashes};

verus! {

broadcast use crate::text::group_texts;

/// How output is written.
#[derive(Clone, Copy, Debug, PartialEq, Eq, Structural)]
pub enum OutputMode {
    Text,
    Json,
    Rpc,
}

/// What follows a flag that an extension registered.
#[derive(Clone, Copy, Debug, PartialEq, Eq, Structural)]
pub enum ExtensionFlagType {
    Boolean,
    String,
}

/// The value given to a flag that an extension registered.
#[derive(Clone, Debug, PartialEq, Eq)]
pub enum ExtensionFlagValue {
    Boolean(bool),
    String(String),
}

/// The value of an extension flag, as a mathematical value.
pub enum FlagValueView {
    Boolean(bool),
    String(Seq<char>),
}

impl View for ExtensionFlagType {
    type V = ExtensionFlagType;

    open spec fn view(&self) -> ExtensionFlagType {
        *self
    }
}

impl View for ExtensionFlagValue {
    type V = FlagValueView;

    open spec fn view(&self) -> FlagValueView {
        match self {
            ExtensionFlagValue::Boolean(value) => FlagValueView::Boolean(*value),
            ExtensionFlagValue::String(value) => FlagValueView::String(value@),
        }
    }
}

/// Values by flag name. No name occurs twice.
#[derive(Debug, PartialEq, Eq)]
pub struct FlagTable<T> {
    entries: Vec<(String, T)>,
}

impl<T: View> View for FlagTable<T> {
    type V = Map<Seq<char>, T::V>;

    closed spec fn view(&self) -> Map<Seq<char>, T::V> {
        entry_map(self.entries@)
    }
}

spec fn entry_map<T: View>(entries: Seq<(String, T)>) -> Map<Seq<char>, T::V>
    decreases entries.len(),
{
    if entries.len() == 0 {
        Map::empty()
    } else {
        entry_map(entries.drop_last()).insert(entries.last().0@, entries.last().1@)
    }
}

spec fn distinct_names<T>(entries: Seq<(String, T)>) -> bool {
    forall|i: int, j: int| 0 <= i < j < entries.len() ==> entries[i].0@ != entries[j].0@
}

proof fn entry_map_lookup<T: View>(entries: Seq<(String, T)>, name: Seq<char>)
    requires
        distinct_names(entries),
    ensures
        entry_map(entries).dom().contains(name) <==> exists|i: int|
            0 <= i < entries.len() && #[trigger] entries[i].0@ == name,
        forall|i: int|
            0 <= i < entries.len() && #[trigger] entries[i].0@ == name ==> entry_map(entries)[name]
                == entries[i].1@,
    decreases entries.len(),
{
    if entries.len() > 0 {
        let before = entries.drop_last();
        entry_map_lookup(before, name);
        assert(forall|i: int| 0 <= i < before.len() ==> before[i] == entries[i]);
        if entries.last().0@ == name {
            assert(entries[entries.len() - 1].0@ == name);
        } else if entry_map(before).dom().contains(name) {
            let i = choose|i: int| 0 <= i < before.len() && #[trigger] before[i].0@ == name;
            assert(entries[i].0@ == name);
        }
        assert forall|i: int| 0 <= i < entries.len() && #[trigger] entries[i].0@ == name implies
            entry_map(entries)[name] == entries[i].1@ by {
            if i < before.len() {
                assert(before[i].0@ == name);
                assert(entries[i].0@ != entries[entries.len() - 1].0@);
            }
        }
    }
}

proof fn entry_map_update<T: View>(before: Seq<(String, T)>, after: Seq<(String, T)>, i: int)
    requires
        distinct_names(before),
        0 <= i < before.len(),
        before[i].0@ == after[i].0@,
        after == before.update(i, after[i]),
    ensures
        distinct_names(after),
        entry_map(after) == entry_map(before).insert(after[i].0@, after[i].1@),
{
    let whole = entry_map(before).insert(after[i].0@, after[i].1@);
    assert forall|k: Seq<char>| #[trigger]
        entry_map(after).dom().contains(k) == whole.dom().contains(k) by {
        entry_map_lookup(after, k);
        entry_map_lookup(before, k);
        assert(forall|j: int| 0 <= j < before.len() ==> (#[trigger] before[j]).0@ == after[j].0@);
    }
    assert forall|k: Seq<char>| #[trigger] entry_map(after).dom().contains(k) implies entry_map(
        after,
    )[k] == whole[k] by {
        entry_map_lookup(after, k);
        entry_map_lookup(before, k);
        let j = choose|j: int| 0 <= j < after.len() && #[trigger] after[j].0@ == k;
        assert(before[j].0@ == k);
        assert(before[i].0@ == after[i].0@);
    }
    assert(entry_map(after) =~= whole);
}

impl<T> FlagTable<T> {
    #[verifier::type_invariant]
    spec fn well_formed(self) -> bool {
        distinct_names(self.entries@)
    }
}

impl<T: View> FlagTable<T> {
    /// A table without entries.
    pub fn new() -> (r: FlagTable<T>)
        ensures
            r@ == Map::<Seq<char>, T::V>::empty(),
    {
        FlagTable { entries: Vec::new() }
    }

    fn position(entries: &Vec<(String, T)>, name: &str) -> (r: Option<usize>)
        ensures
            match r {
                Some(i) => i < entries@.len() && entries@[i as int].0@ == name@,
                None => forall|i: int| 0 <= i < entries@.len() ==> entries@[i].0@ != name@,
            },
    {
        let mut i: usize = 0;
        while i < entries.len()
            invariant
                0 <= i <= entries.len(),
                forall|j: int| 0 <= j < i ==> entries@[j].0@ != name@,
            decreases entries.len() - i,
        {
            if same(entries[i].0.as_str(), name) {
                return Some(i);
            }
            i += 1;
        }
        None
    }

    /// The value under `name`.
    pub fn get(&self, name: &str) -> (r: Option<&T>)
        ensures
            match r {
                Some(value) => self@.dom().contains(name@) && self@[name@] == value@,
                None => !self@.dom().contains(name@),
            },
    {
        proof {
            use_type_invariant(self);
            entry_map_lookup(self.entries@, name@);
        }
        match Self::position(&self.entries, name) {
            Some(i) => Some(&self.entries[i].1),
            None => None,
        }
    }

    /// Puts `value` under `name`, in place of what was there.
    pub fn insert(&mut self, name: String, value: T)
        ensures
            final(self)@ == old(self)@.insert(name@, value@),
    {
        proof {
            use_type_invariant(&*self);
        }
        let ghost before = self.entries@;
        let mut entries: Vec<(String, T)> = Vec::new();
        std::mem::swap(&mut entries, &mut self.entries);
        match Self::position(&entries, name.as_str()) {
            Some(i) => {
                entries.set(i, (name, value));
                proof {
                    entry_map_update(before, entries@, i as int);
                }
            },
            None => {
                entries.push((name, value));
                assert(entries@.drop_last() =~= before);
            },
        }
        self.entries = entries;
    }
}

/// An argument that stands alone.
#[derive(Clone, Copy, Debug, PartialEq, Eq, Structural)]
pub enum Switch {
    Help,
    Version,
    Continue,
    Resume,
    NoSession,
    NoTools,
    Print,
    NoExtensions,
    NoSkills,
    NoPromptTemplates,
    NoThemes,
    Verbose,
}

/// An argument that takes the next one as its value.
#[derive(Clone, Copy, Debug, PartialEq, Eq, Structural)]
pub enum Setting {
    Mode,
    Provider,
    Model,
    ApiKey,
    SystemPrompt,
    AppendSystemPrompt,
    Session,
    SessionDir,
    Models,
    Tools,
    Thinking,
    Export,
    Extension,
    Skill,
    PromptTemplate,
    Theme,
}

/// An argument that asks for a list and may be followed by a search.
#[derive(Clone, Copy, Debug, PartialEq, Eq, Structural)]
pub enum Listing {
    Models,
    KnownModels,
}

/// The switch that an argument names.
pub open spec fn switch_named(arg: Seq<char>) -> Option<Switch> {
    if arg == "--help"@ || arg == "-h"@ {
        Some(Switch::Help)
    } else if arg == "--version"@ || arg == "-v"@ {
        Some(Switch::Version)
    } else if arg == "--continue"@ || arg == "-c"@ {
        Some(Switch::Continue)
    } else if arg == "--resume"@ || arg == "-r"@ {
        Some(Switch::Resume)
    } else if arg == "--no-session"@ {
        Some(Switch::NoSession)
    } else if arg == "--no-tools"@ {
        Some(Switch::NoTools)
    } else if arg == "--print"@ || arg == "-p"@ {
        Some(Switch::Print)
    } else if arg == "--no-extensions"@ || arg == "-ne"@ {
        Some(Switch::NoExtensions)
    } else if arg == "--no-skills"@ || arg == "-ns"@ {
        Some(Switch::NoSkills)
    } else if arg == "--no-prompt-templates"@ || arg == "-np"@ {
        Some(Switch::NoPromptTemplates)
    } else if arg == "--no-themes"@ {
        Some(Switch::NoThemes)
    } else if arg == "--verbose"@ {
        Some(Switch::Verbose)
    } else {
        None
    }
}

/// The switch that an argument names.
pub fn find_switch(arg: &str) -> (r: Option<Switch>)
    ensures
        r == switch_named(arg@),
{
    if same(arg, "--help") || same(arg, "-h") {
        Some(Switch::Help)
    } else if same(arg, "--version") || same(arg, "-v") {
        Some(Switch::Version)
    } else if same(arg, "--continue") || same(arg, "-c") {
        Some(Switch::Continue)
    } else if same(arg, "--resume") || same(arg, "-r") {
        Some(Switch::Resume)
    } else if same(arg, "--no-session") {
        Some(Switch::NoSession)
    } else if same(arg, "--no-tools") {
        Some(Switch::NoTools)
    } else if same(arg, "--print") || same(arg, "-p") {
        Some(Switch::Print)
    } else if same(arg, "--no-extensions") || same(arg, "-ne") {
        Some(Switch::NoExtensions)
    } else if same(arg, "--no-skills") || same(arg, "-ns") {
        Some(Switch::NoSkills)
    } else if same(arg, "--no-prompt-templates") || same(arg, "-np") {
        Some(Switch::NoPromptTemplates)
    } else if same(arg, "--no-themes") {
        Some(Switch::NoThemes)
    } else if same(arg, "--verbose") {
        Some(Switch::Verbose)
    } else {
        None
    }
}

/// The setting that an argument names.
pub open spec fn setting_named(arg: Seq<char>) -> Option<Setting> {
    if arg == "--mode"@ {
        Some(Setting::Mode)
    } else if arg == "--provider"@ {
        Some(Setting::Provider)
    } else if arg == "--model"@ {
        Some(Setting::Model)
    } else if arg == "--api-key"@ {
        Some(Setting::ApiKey)
    } else if arg == "--system-prompt"@ {
        Some(Setting::SystemPrompt)
    } else if arg == "--append-system-prompt"@ {
        Some(Setting::AppendSystemPrompt)
    } else if arg == "--session"@ {
        Some(Setting::Session)
    } else if arg == "--session-dir"@ {
        Some(Setting::SessionDir)
    } else if arg == "--models"@ {
        Some(Setting::Models)
    } else if arg == "--tools"@ {
        Some(Setting::Tools)
    } else if arg == "--thinking"@ {
        Some(Setting::Thinking)
    } else if arg == "--export"@ {
        Some(Setting::Export)
    } else if arg == "--extension"@ || arg == "-e"@ {
        Some(Setting::Extension)
    } else if arg == "--skill"@ {
        Some(Setting::Skill)
    } else if arg == "--prompt-template"@ {
        Some(Setting::PromptTemplate)
    } else if arg == "--theme"@ {
        Some(Setting::Theme)
    } else {
        None
    }
}

/// The setting that an argument names.
pub fn find_setting(arg: &str) -> (r: Option<Setting>)
    ensures
        r == setting_named(arg@),
{
    if same(arg, "--mode") {
        Some(Setting::Mode)
    } else if same(arg, "--provider") {
        Some(Setting::Provider)
    } else if same(arg, "--model") {
        Some(Setting::Model)
    } else if same(arg, "--api-key") {
        Some(Setting::ApiKey)
    } else if same(arg, "--system-prompt") {
        Some(Setting::SystemPrompt)
    } else if same(arg, "--append-system-prompt") {
        Some(Setting::AppendSystemPrompt)
    } else if same(arg, "--session") {
        Some(Setting::Session)
    } else if same(arg, "--session-dir") {
        Some(Setting::SessionDir)
    } else if same(arg, "--models") {
        Some(Setting::Models)
    } else if same(arg, "--tools") {
        Some(Setting::Tools)
    } else if same(arg, "--thinking") {
        Some(Setting::Thinking)
    } else if same(arg, "--export") {
        Some(Setting::Export)
    } else if same(arg, "--extension") || same(arg, "-e") {
        Some(Setting::Extension)
    } else if same(arg, "--skill") {
        Some(Setting::Skill)
    } else if same(arg, "--prompt-template") {
        Some(Setting::PromptTemplate)
    } else if same(arg, "--theme") {
        Some(Setting::Theme)
    } else {
        None
    }
}

/// The listing that an argument names.
pub open spec fn listing_named(arg: Seq<char>) -> Option<Listing> {
    if arg == "--list-models"@ {
        Some(Listing::Models)
    } else if arg == "--list-known-models"@ {
        Some(Listing::KnownModels)
    } else {
        None
    }
}

/// The listing that an argument names.
pub fn find_listing(arg: &str) -> (r: Option<Listing>)
    ensures
        r == listing_named(arg@),
{
    if same(arg, "--list-models") {
        Some(Listing::Models)
    } else if same(arg, "--list-known-models") {
        Some(Listing::KnownModels)
    } else {
        None
    }
}

/// Whether an argument can be the search of a listing: neither a flag nor a file.
pub open spec fn is_search(arg: Seq<char>) -> bool {
    !text::starts_with_char(arg, '-') && !text::starts_with_char(arg, '@')
}

/// Whether an argument can be the search of a listing.
pub fn search_like(arg: &str) -> (r: bool)
    ensures
        r == is_search(arg@),
{
    !begins_with_char(arg, '-') && !begins_with_char(arg, '@')
}

/// One item of the command line.
pub enum Item {
    Switch(Switch),
    Valued(Setting, String),
    Listing(Listing, Option<String>),
    File(String),
    Extension(String, ExtensionFlagValue),
    Message(String),
    Ignored,
}

/// One item of the command line, as a mathematical value.
pub enum ItemView {
    Switch(Switch),
    Valued(Setting, Seq<char>),
    Listing(Listing, Option<Seq<char>>),
    File(Seq<char>),
    Extension(Seq<char>, FlagValueView),
    Message(Seq<char>),
    Ignored,
}

impl View for Item {
    type V = ItemView;

    open spec fn view(&self) -> ItemView {
        match self {
            Item::Switch(switch) => ItemView::Switch(*switch),
            Item::Valued(setting, value) => ItemView::Valued(*setting, value@),
            Item::Listing(listing, search) => ItemView::Listing(*listing, text::opt_text(*search)),
            Item::File(path) => ItemView::File(path@),
            Item::Extension(name, value) => ItemView::Extension(name@, value@),
            Item::Message(message) => ItemView::Message(message@),
            Item::Ignored => ItemView::Ignored,
        }
    }
}

/// The items of a sequence.
pub open spec fn item_views(items: Seq<Item>) -> Seq<ItemView> {
    Seq::new(items.len(), |i: int| items[i]@)
}

/// The flags that extensions registered, by name.
pub type FlagTypes = Map<Seq<char>, ExtensionFlagType>;

/// The item that starts at argument `i`, and whether it takes the next argument too.
///
/// A name that takes a value but stands last is no longer special: it may still be a flag of an
/// extension.
pub open spec fn item_at(args: Seq<Seq<char>>, flags: Option<FlagTypes>, i: int) -> (
    ItemView,
    bool,
) {
    let arg = args[i];
    let has_next = i + 1 < args.len();
    if let Some(switch) = switch_named(arg) {
        (ItemView::Switch(switch), false)
    } else if setting_named(arg) is Some && has_next {
        (ItemView::Valued(setting_named(arg)->0, args[i + 1]), true)
    } else if let Some(listing) = listing_named(arg) {
        if has_next && is_search(args[i + 1]) {
            (ItemView::Listing(listing, Some(args[i + 1])), true)
        } else {
            (ItemView::Listing(listing, None), false)
        }
    } else if text::starts_with_char(arg, '@') {
        (ItemView::File(text::trim_start_char(arg, '@')), false)
    } else if text::has_prefix(arg, "--"@) {
        let name = text::trim_start_dashes(arg);
        if flags is Some && flags->0.dom().contains(name) {
            if flags->0[name] == ExtensionFlagType::Boolean {
                (ItemView::Extension(name, FlagValueView::Boolean(true)), false)
            } else if has_next {
                (ItemView::Extension(name, FlagValueView::String(args[i + 1])), true)
            } else {
                (ItemView::Ignored, false)
            }
        } else {
            (ItemView::Ignored, false)
        }
    } else if !text::starts_with_char(arg, '-') {
        (ItemView::Message(arg), false)
    } else {
        (ItemView::Ignored, false)
    }
}

/// The items from argument `i` on.
pub open spec fn items_from(args: Seq<Seq<char>>, flags: Option<FlagTypes>, i: int) -> Seq<
    ItemView,
>
    decreases args.len() - i,
{
    if i < 0 || i >= args.len() {
        Seq::empty()
    } else {
        let (item, two) = item_at(args, flags, i);
        seq![item] + items_from(
            args,
            flags,
            if two {
                i + 2
            } else {
                i + 1
            },
        )
    }
}

/// The extension flags behind an optional table.
pub open spec fn flag_types(flags: Option<&FlagTable<ExtensionFlagType>>) -> Option<FlagTypes> {
    match flags {
        Some(table) => Some(table@),
        None => None,
    }
}

fn extension_item(
    args: &[String],
    flags: Option<&FlagTable<ExtensionFlagType>>,
    i: usize,
) -> (r: (Item, bool))
    requires
        i < args@.len(),
        switch_named(args@[i as int]@) is None,
        setting_named(args@[i as int]@) is None || i + 1 == args@.len(),
        listing_named(args@[i as int]@) is None,
        !text::starts_with_char(args@[i as int]@, '@'),
        text::has_prefix(args@[i as int]@, "--"@),
    ensures
        (r.0@, r.1) == item_at(text::texts(args@), flag_types(flags), i as int),
        r.1 ==> i + 1 < args@.len(),
{
    let table = match flags {
        Some(table) => table,
        None => {
            return (Item::Ignored, false);
        },
    };
    let name = trimmed_start_dashes(args[i].as_str());
    match table.get(name.as_str()) {
        Some(ExtensionFlagType::Boolean) => (
            Item::Extension(name, ExtensionFlagValue::Boolean(true)),
            false,
        ),
        Some(ExtensionFlagType::String) => {
            if i < args.len() - 1 {
                let value = copy_text(args[i + 1].as_str());
                (Item::Extension(name, ExtensionFlagValue::String(value)), true)
            } else {
                (Item::Ignored, false)
            }
        },
        None => (Item::Ignored, false),
    }
}

/// The item that starts at argument `i`, and whether it takes the next argument too.
pub fn read_item(
    args: &[String],
    flags: Option<&FlagTable<ExtensionFlagType>>,
    i: usize,
) -> (r: (Item, bool))
    requires
        i < args@.len(),
    ensures
        (r.0@, r.1) == item_at(text::texts(args@), flag_types(flags), i as int),
        r.1 ==> i + 1 < args@.len(),
{
    let arg = args[i].as_str();
    let has_next = i < args.len() - 1;
    if let Some(switch) = find_switch(arg) {
        return (Item::Switch(switch), false);
    }
    if has_next {
        if let Some(setting) = find_setting(arg) {
            return (Item::Valued(setting, copy_text(args[i + 1].as_str())), true);
        }
    }
    if let Some(listing) = find_listing(arg) {
        if has_next && search_like(args[i + 1].as_str()) {
            return (Item::Listing(listing, Some(copy_text(args[i + 1].as_str()))), true);
        }
        return (Item::Listing(listing, None), false);
    }
    if begins_with_char(arg, '@') {
        (Item::File(trimmed_start_char(arg, '@')), false)
    } else if begins_with(arg, "--") {
        extension_item(args, flags, i)
    } else if !begins_with_char(arg, '-') {
        (Item::Message(copy_text(arg)), false)
    } else {
        (Item::Ignored, false)
    }
}

/// The items of the command line.
pub fn read_items(args: &[String], flags: Option<&FlagTable<ExtensionFlagType>>) -> (r: Vec<Item>)
    ensures
        item_views(r@) == items_from(text::texts(args@), flag_types(flags), 0),
{
    let ghost all = text::texts(args@);
    let ghost types = flag_types(flags);
    let mut out: Vec<Item> = Vec::new();
    let mut i: usize = 0;
    assert(item_views(out@) + items_from(all, types, 0) =~= items_from(all, types, 0));
    while i < args.len()
        invariant
            0 <= i <= args.len(),
            all == text::texts(args@),
            types == flag_types(flags),
            item_views(out@) + items_from(all, types, i as int) == items_from(all, types, 0),
        decreases args.len() - i,
    {
        let (item, two) = read_item(args, flags, i);
        let ghost next: int = if two {
            i + 2
        } else {
            i + 1
        };
        let ghost before = item_views(out@);
        let ghost shown = item@;
        out.push(item);
        proof {
            assert(item_views(out@) =~= before.push(shown));
            assert(before.push(shown) + items_from(all, types, next) =~= before + (seq![shown]
                + items_from(all, types, next)));
        }
        if two {
            i += 2;
        } else {
            i += 1;
        }
    }
    assert(item_views(out@) + items_from(all, types, i as int) =~= item_views(out@));
    out
}


/// Whether the items hold a switch.
#[verifier::opaque]
pub open spec fn switched(items: Seq<ItemView>, switch: Switch) -> bool {
    items.contains(ItemView::Switch(switch))
}

/// The values given to a setting, in order.
#[verifier::opaque]
pub open spec fn values_of(items: Seq<ItemView>, setting: Setting) -> Seq<Seq<char>>
    decreases items.len(),
{
    if items.len() == 0 {
        Seq::empty()
    } else {
        let before = values_of(items.drop_last(), setting);
        match items.last() {
            ItemView::Valued(named, value) => if named == setting {
                before.push(value)
            } else {
                before
            },
            _ => before,
        }
    }
}

/// The last of a sequence of texts.
pub open spec fn last_of(values: Seq<Seq<char>>) -> Option<Seq<char>> {
    if values.len() == 0 {
        None
    } else {
        Some(values.last())
    }
}

/// The last text of a sequence that is a thinking level.
#[verifier::opaque]
pub open spec fn last_thinking(values: Seq<Seq<char>>) -> Option<Seq<char>>
    decreases values.len(),
{
    if values.len() == 0 {
        None
    } else if is_thinking_level(values.last()) {
        Some(values.last())
    } else {
        last_thinking(values.drop_last())
    }
}

/// The mode that the last text of a sequence that names one names.
#[verifier::opaque]
pub open spec fn last_mode(values: Seq<Seq<char>>) -> Option<OutputMode>
    decreases values.len(),
{
    if values.len() == 0 {
        None
    } else if mode_named(values.last()) is Some {
        mode_named(values.last())
    } else {
        last_mode(values.drop_last())
    }
}

/// The last request for a listing.
#[verifier::opaque]
pub open spec fn last_listing(items: Seq<ItemView>, listing: Listing) -> Option<Option<Seq<char>>>
    decreases items.len(),
{
    if items.len() == 0 {
        None
    } else {
        match items.last() {
            ItemView::Listing(named, search) => if named == listing {
                Some(search)
            } else {
                last_listing(items.drop_last(), listing)
            },
            _ => last_listing(items.drop_last(), listing),
        }
    }
}

/// The messages among the items, in order.
#[verifier::opaque]
pub open spec fn messages_of(items: Seq<ItemView>) -> Seq<Seq<char>>
    decreases items.len(),
{
    if items.len() == 0 {
        Seq::empty()
    } else {
        let before = messages_of(items.drop_last());
        match items.last() {
            ItemView::Message(message) => before.push(message),
            _ => before,
        }
    }
}

/// The files among the items, in order.
#[verifier::opaque]
pub open spec fn files_of(items: Seq<ItemView>) -> Seq<Seq<char>>
    decreases items.len(),
{
    if items.len() == 0 {
        Seq::empty()
    } else {
        let before = files_of(items.drop_last());
        match items.last() {
            ItemView::File(path) => before.push(path),
            _ => before,
        }
    }
}

/// The extension flags among the items. The last value of a flag counts.
#[verifier::opaque]
pub open spec fn extension_values(items: Seq<ItemView>) -> Map<Seq<char>, FlagValueView>
    decreases items.len(),
{
    if items.len() == 0 {
        Map::empty()
    } else {
        let before = extension_values(items.drop_last());
        match items.last() {
            ItemView::Extension(name, value) => before.insert(name, value),
            _ => before,
        }
    }
}

/// The output mode that a text names.
pub open spec fn mode_named(name: Seq<char>) -> Option<OutputMode> {
    if name == "text"@ {
        Some(OutputMode::Text)
    } else if name == "json"@ {
        Some(OutputMode::Json)
    } else if name == "rpc"@ {
        Some(OutputMode::Rpc)
    } else {
        None
    }
}

/// The output mode that a text names.
pub fn find_mode(name: &str) -> (r: Option<OutputMode>)
    ensures
        r == mode_named(name@),
{
    if same(name, "text") {
        Some(OutputMode::Text)
    } else if same(name, "json") {
        Some(OutputMode::Json)
    } else if same(name, "rpc") {
        Some(OutputMode::Rpc)
    } else {
        None
    }
}

/// Whether a text is a thinking level.
pub open spec fn is_thinking_level(value: Seq<char>) -> bool {
    ||| value == "off"@
    ||| value == "minimal"@
    ||| value == "low"@
    ||| value == "medium"@
    ||| value == "high"@
    ||| value == "xhigh"@
}

/// Whether a text is a thinking level.
pub fn is_valid_thinking_level(value: &str) -> (r: bool)
    ensures
        r == is_thinking_level(value@),
{
    same(value, "off") || same(value, "minimal") || same(value, "low") || same(value, "medium")
        || same(value, "high") || same(value, "xhigh")
}

/// Whether a text names a built-in tool.
pub open spec fn is_tool(value: Seq<char>) -> bool {
    ||| value == "read"@
    ||| value == "bash"@
    ||| value == "edit"@
    ||| value == "write"@
    ||| value == "grep"@
    ||| value == "find"@
    ||| value == "ls"@
}

/// Whether a text names a built-in tool.
pub fn is_known_tool(value: &str) -> (r: bool)
    ensures
        r == is_tool(value@),
{
    same(value, "read") || same(value, "bash") || same(value, "edit") || same(value, "write")
        || same(value, "grep") || same(value, "find") || same(value, "ls")
}

/// The entries of a list separated by commas, without the white space around them.
pub open spec fn csv_entries(value: Seq<char>) -> Seq<Seq<char>> {
    text::split_on(value, ',').map_values(|part: Seq<char>| text::trim(part))
}

/// The entries of a list separated by commas; an empty entry stays.
pub fn split_csv_preserving_empties(value: &str) -> (r: Vec<String>)
    ensures
        text::texts(r@) == csv_entries(value@),
{
    let parts = split_text(value, ',');
    let ghost pieces = text::split_on(value@, ',');
    let mut out: Vec<String> = Vec::new();
    let mut i: usize = 0;
    while i < parts.len()
        invariant
            0 <= i <= parts.len(),
            text::texts(parts@) == pieces,
            text::texts(out@) == csv_entries(value@).take(i as int),
            csv_entries(value@) == pieces.map_values(|part: Seq<char>| text::trim(part)),
        decreases parts.len() - i,
    {
        assert(parts@[i as int]@ == pieces[i as int]);
        out.push(trimmed(parts[i].as_str()));
        i += 1;
        assert(csv_entries(value@).take(i as int) =~= csv_entries(value@).take(i - 1).push(
            csv_entries(value@)[i - 1],
        ));
    }
    assert(csv_entries(value@).take(i as int) =~= csv_entries(value@));
    out
}

/// The names of built-in tools in a sequence, in order.
pub open spec fn known_tools(names: Seq<Seq<char>>) -> Seq<Seq<char>>
    decreases names.len(),
{
    if names.len() == 0 {
        Seq::empty()
    } else if is_tool(names.last()) {
        known_tools(names.drop_last()).push(names.last())
    } else {
        known_tools(names.drop_last())
    }
}

/// The built-in tools named in a list separated by commas; other names are dropped.
pub fn parse_tool_names(value: &str) -> (r: Vec<String>)
    ensures
        text::texts(r@) == known_tools(csv_entries(value@)),
{
    let names = split_csv_preserving_empties(value);
    let ghost all = text::texts(names@);
    let mut out: Vec<String> = Vec::new();
    let mut i: usize = 0;
    while i < names.len()
        invariant
            0 <= i <= names.len(),
            all == text::texts(names@),
            text::texts(out@) == known_tools(all.take(i as int)),
        decreases names.len() - i,
    {
        assert(all.take(i + 1).drop_last() =~= all.take(i as int));
        assert(names@[i as int]@ == all[i as int]);
        if is_known_tool(names[i].as_str()) {
            out.push(copy_text(names[i].as_str()));
        }
        i += 1;
    }
    assert(all.take(i as int) =~= all);
    out
}

/// What the command line asks for.
#[derive(Debug, PartialEq, Eq)]
pub struct Args {
    pub provider: Option<String>,
    pub model: Option<String>,
    pub api_key: Option<String>,
    pub system_prompt: Option<String>,
    pub append_system_prompt: Option<String>,
    pub thinking: Option<String>,
    pub continue_session: bool,
    pub resume: bool,
    pub help: bool,
    pub version: bool,
    pub mode: Option<OutputMode>,
    pub no_session: bool,
    pub session: Option<String>,
    pub session_dir: Option<String>,
    pub models: Option<Vec<String>>,
    pub tools: Option<Vec<String>>,
    pub no_tools: bool,
    pub extensions: Vec<String>,
    pub no_extensions: bool,
    pub print: bool,
    pub export: Option<String>,
    pub no_skills: bool,
    pub skills: Vec<String>,
    pub prompt_templates: Vec<String>,
    pub no_prompt_templates: bool,
    pub themes: Vec<String>,
    pub no_themes: bool,
    pub list_models: Option<Option<String>>,
    pub list_known_models: Option<Option<String>>,
    pub verbose: bool,
    pub messages: Vec<String>,
    pub file_args: Vec<String>,
    pub unknown_flags: FlagTable<ExtensionFlagValue>,
}

/// The texts of an optional list.
pub open spec fn opt_texts(value: Option<Vec<String>>) -> Option<Seq<Seq<char>>> {
    match value {
        Some(list) => Some(text::texts(list@)),
        None => None,
    }
}

/// The text of an optional search.
pub open spec fn opt_search(value: Option<Option<String>>) -> Option<Option<Seq<char>>> {
    match value {
        Some(search) => Some(text::opt_text(search)),
        None => None,
    }
}

/// What the command line asks for, as a mathematical value.
pub struct ArgsView {
    pub provider: Option<Seq<char>>,
    pub model: Option<Seq<char>>,
    pub api_key: Option<Seq<char>>,
    pub system_prompt: Option<Seq<char>>,
    pub append_system_prompt: Option<Seq<char>>,
    pub session: Option<Seq<char>>,
    pub session_dir: Option<Seq<char>>,
    pub export: Option<Seq<char>>,
    pub thinking: Option<Seq<char>>,
    pub mode: Option<OutputMode>,
    pub models: Option<Seq<Seq<char>>>,
    pub tools: Option<Seq<Seq<char>>>,
    pub continue_session: bool,
    pub resume: bool,
    pub help: bool,
    pub version: bool,
    pub no_session: bool,
    pub no_tools: bool,
    pub no_extensions: bool,
    pub print: bool,
    pub no_skills: bool,
    pub no_prompt_templates: bool,
    pub no_themes: bool,
    pub verbose: bool,
    pub extensions: Seq<Seq<char>>,
    pub skills: Seq<Seq<char>>,
    pub prompt_templates: Seq<Seq<char>>,
    pub themes: Seq<Seq<char>>,
    pub messages: Seq<Seq<char>>,
    pub file_args: Seq<Seq<char>>,
    pub unknown_flags: Map<Seq<char>, FlagValueView>,
    pub list_models: Option<Option<Seq<char>>>,
    pub list_known_models: Option<Option<Seq<char>>>,
}

impl View for Args {
    type V = ArgsView;

    open spec fn view(&self) -> ArgsView {
        ArgsView {
            provider: text::opt_text(self.provider),
            model: text::opt_text(self.model),
            api_key: text::opt_text(self.api_key),
            system_prompt: text::opt_text(self.system_prompt),
            append_system_prompt: text::opt_text(self.append_system_prompt),
            session: text::opt_text(self.session),
            session_dir: text::opt_text(self.session_dir),
            export: text::opt_text(self.export),
            thinking: text::opt_text(self.thinking),
            mode: self.mode,
            models: opt_texts(self.models),
            tools: opt_texts(self.tools),
            continue_session: self.continue_session,
            resume: self.resume,
            help: self.help,
            version: self.version,
            no_session: self.no_session,
            no_tools: self.no_tools,
            no_extensions: self.no_extensions,
            print: self.print,
            no_skills: self.no_skills,
            no_prompt_templates: self.no_prompt_templates,
            no_themes: self.no_themes,
            verbose: self.verbose,
            extensions: text::texts(self.extensions@),
            skills: text::texts(self.skills@),
            prompt_templates: text::texts(self.prompt_templates@),
            themes: text::texts(self.themes@),
            messages: text::texts(self.messages@),
            file_args: text::texts(self.file_args@),
            unknown_flags: self.unknown_flags@,
            list_models: opt_search(self.list_models),
            list_known_models: opt_search(self.list_known_models),
        }
    }
}

/// What the items of a command line ask for. Of a setting with one value the last value counts; a
/// value of `--mode` or `--thinking` that is not known is passed over.
pub open spec fn asked(items: Seq<ItemView>) -> ArgsView {
    ArgsView {
        provider: last_of(values_of(items, Setting::Provider)),
        model: last_of(values_of(items, Setting::Model)),
        api_key: last_of(values_of(items, Setting::ApiKey)),
        system_prompt: last_of(values_of(items, Setting::SystemPrompt)),
        append_system_prompt: last_of(values_of(items, Setting::AppendSystemPrompt)),
        session: last_of(values_of(items, Setting::Session)),
        session_dir: last_of(values_of(items, Setting::SessionDir)),
        export: last_of(values_of(items, Setting::Export)),
        thinking: last_thinking(values_of(items, Setting::Thinking)),
        mode: last_mode(values_of(items, Setting::Mode)),
        models: match last_of(values_of(items, Setting::Models)) {
            Some(value) => Some(csv_entries(value)),
            None => None,
        },
        tools: match last_of(values_of(items, Setting::Tools)) {
            Some(value) => Some(known_tools(csv_entries(value))),
            None => None,
        },
        continue_session: switched(items, Switch::Continue),
        resume: switched(items, Switch::Resume),
        help: switched(items, Switch::Help),
        version: switched(items, Switch::Version),
        no_session: switched(items, Switch::NoSession),
        no_tools: switched(items, Switch::NoTools),
        no_extensions: switched(items, Switch::NoExtensions),
        print: switched(items, Switch::Print),
        no_skills: switched(items, Switch::NoSkills),
        no_prompt_templates: switched(items, Switch::NoPromptTemplates),
        no_themes: switched(items, Switch::NoThemes),
        verbose: switched(items, Switch::Verbose),
        extensions: values_of(items, Setting::Extension),
        skills: values_of(items, Setting::Skill),
        prompt_templates: values_of(items, Setting::PromptTemplate),
        themes: values_of(items, Setting::Theme),
        messages: messages_of(items),
        file_args: files_of(items),
        unknown_flags: extension_values(items),
        list_models: last_listing(items, Listing::Models),
        list_known_models: last_listing(items, Listing::KnownModels),
    }
}

/// What a command line asks for.
pub open spec fn asked_by(args: Seq<Seq<char>>, flags: Option<FlagTypes>) -> ArgsView {
    asked(items_from(args, flags, 0))
}

impl Args {
    /// The switches say what the items say.
    spec fn switches_reflect(self, items: Seq<ItemView>) -> bool {
        &&& self.continue_session == switched(items, Switch::Continue)
        &&& self.resume == switched(items, Switch::Resume)
        &&& self.help == switched(items, Switch::Help)
        &&& self.version == switched(items, Switch::Version)
        &&& self.no_session == switched(items, Switch::NoSession)
        &&& self.no_tools == switched(items, Switch::NoTools)
        &&& self.no_extensions == switched(items, Switch::NoExtensions)
        &&& self.print == switched(items, Switch::Print)
        &&& self.no_skills == switched(items, Switch::NoSkills)
        &&& self.no_prompt_templates == switched(items, Switch::NoPromptTemplates)
        &&& self.no_themes == switched(items, Switch::NoThemes)
        &&& self.verbose == switched(items, Switch::Verbose)
    }

    /// The settings with one value say what the items say.
    spec fn values_reflect(self, items: Seq<ItemView>) -> bool {
        &&& text::opt_text(self.provider) == last_of(values_of(items, Setting::Provider))
        &&& text::opt_text(self.model) == last_of(values_of(items, Setting::Model))
        &&& text::opt_text(self.api_key) == last_of(values_of(items, Setting::ApiKey))
        &&& text::opt_text(self.system_prompt) == last_of(values_of(items, Setting::SystemPrompt))
        &&& text::opt_text(self.append_system_prompt) == last_of(values_of(items, Setting::AppendSystemPrompt))
        &&& text::opt_text(self.session) == last_of(values_of(items, Setting::Session))
        &&& text::opt_text(self.session_dir) == last_of(values_of(items, Setting::SessionDir))
        &&& text::opt_text(self.export) == last_of(values_of(items, Setting::Export))
        &&& text::opt_text(self.thinking) == last_thinking(values_of(items, Setting::Thinking))
        &&& self.mode == last_mode(values_of(items, Setting::Mode))
        &&& opt_texts(self.models) == (match last_of(values_of(items, Setting::Models)) {
            Some(value) => Some(csv_entries(value)),
            None => None,
        })
        &&& opt_texts(self.tools) == (match last_of(values_of(items, Setting::Tools)) {
            Some(value) => Some(known_tools(csv_entries(value))),
            None => None,
        })
    }

    /// The lists say what the items say.
    spec fn lists_reflect(self, items: Seq<ItemView>) -> bool {
        &&& text::texts(self.extensions@) == values_of(items, Setting::Extension)
        &&& text::texts(self.skills@) == values_of(items, Setting::Skill)
        &&& text::texts(self.prompt_templates@) == values_of(items, Setting::PromptTemplate)
        &&& text::texts(self.themes@) == values_of(items, Setting::Theme)
        &&& text::texts(self.messages@) == messages_of(items)
        &&& text::texts(self.file_args@) == files_of(items)
        &&& self.unknown_flags@ == extension_values(items)
        &&& opt_search(self.list_models) == last_listing(items, Listing::Models)
        &&& opt_search(self.list_known_models) == last_listing(items, Listing::KnownModels)
    }

    /// All fields say what the items say.
    spec fn reflects(self, items: Seq<ItemView>) -> bool {
        &&& self.switches_reflect(items)
        &&& self.values_reflect(items)
        &&& self.lists_reflect(items)
    }

    fn apply_switch(self, switch: Switch, items: Ghost<Seq<ItemView>>) -> (r: Args)
        requires
            self.reflects(items@),
        ensures
            r.reflects(items@.push(ItemView::Switch(switch))),
    {
        proof {
            pushed(items@, ItemView::Switch(switch));
        }
        let mut out = self;
        match switch {
            Switch::Continue => {
                out.continue_session = true;
            },
            Switch::Resume => {
                out.resume = true;
            },
            Switch::Help => {
                out.help = true;
            },
            Switch::Version => {
                out.version = true;
            },
            Switch::NoSession => {
                out.no_session = true;
            },
            Switch::NoTools => {
                out.no_tools = true;
            },
            Switch::NoExtensions => {
                out.no_extensions = true;
            },
            Switch::Print => {
                out.print = true;
            },
            Switch::NoSkills => {
                out.no_skills = true;
            },
            Switch::NoPromptTemplates => {
                out.no_prompt_templates = true;
            },
            Switch::NoThemes => {
                out.no_themes = true;
            },
            Switch::Verbose => {
                out.verbose = true;
            },
        }
        out
    }

    fn apply_value(self, setting: Setting, value: String, items: Ghost<Seq<ItemView>>) -> (r: Args)
        requires
            self.reflects(items@),
        ensures
            r.reflects(items@.push(ItemView::Valued(setting, value@))),
    {
        proof {
            pushed(items@, ItemView::Valued(setting, value@));
            pushed_value(values_of(items@, setting), value@);
        }
        let mut out = self;
        match setting {
            Setting::Mode => {
                if let Some(mode) = find_mode(value.as_str()) {
                    out.mode = Some(mode);
                }
            },
            Setting::Thinking => {
                if is_valid_thinking_level(value.as_str()) {
                    out.thinking = Some(value);
                }
            },
            Setting::Models => {
                out.models = Some(split_csv_preserving_empties(value.as_str()));
            },
            Setting::Tools => {
                out.tools = Some(parse_tool_names(value.as_str()));
            },
            Setting::Provider => {
                out.provider = Some(value);
            },
            Setting::Model => {
                out.model = Some(value);
            },
            Setting::ApiKey => {
                out.api_key = Some(value);
            },
            Setting::SystemPrompt => {
                out.system_prompt = Some(value);
            },
            Setting::AppendSystemPrompt => {
                out.append_system_prompt = Some(value);
            },
            Setting::Session => {
                out.session = Some(value);
            },
            Setting::SessionDir => {
                out.session_dir = Some(value);
            },
            Setting::Export => {
                out.export = Some(value);
            },
            Setting::Extension => {
                out.extensions.push(value);
            },
            Setting::Skill => {
                out.skills.push(value);
            },
            Setting::PromptTemplate => {
                out.prompt_templates.push(value);
            },
            Setting::Theme => {
                out.themes.push(value);
            },
        }
        out
    }

    fn apply(self, item: Item, items: Ghost<Seq<ItemView>>) -> (r: Args)
        requires
            self.reflects(items@),
        ensures
            r.reflects(items@.push(item@)),
    {
        proof {
            pushed(items@, item@);
        }
        let mut out = self;
        match item {
            Item::Switch(switch) => {
                out = out.apply_switch(switch, items);
            },
            Item::Valued(setting, value) => {
                out = out.apply_value(setting, value, items);
            },
            Item::Listing(listing, search) => {
                match listing {
                    Listing::Models => {
                        out.list_models = Some(search);
                    },
                    Listing::KnownModels => {
                        out.list_known_models = Some(search);
                    },
                }
            },
            Item::File(path) => {
                out.file_args.push(path);
            },
            Item::Extension(name, value) => {
                out.unknown_flags.insert(name, value);
            },
            Item::Message(message) => {
                out.messages.push(message);
            },
            Item::Ignored => {},
        }
        out
    }
}

impl Default for Args {
    /// Nothing is asked for.
    fn default() -> (r: Args)
        ensures
            r@ == asked(Seq::empty()),
    {
        proof {
            reveal(values_of);
            reveal(last_listing);
            reveal(messages_of);
            reveal(files_of);
            reveal(extension_values);
            reveal(switched);
            reveal(last_thinking);
            reveal(last_mode);
        }
        Args {
            provider: None,
            model: None,
            api_key: None,
            system_prompt: None,
            append_system_prompt: None,
            thinking: None,
            continue_session: false,
            resume: false,
            help: false,
            version: false,
            mode: None,
            no_session: false,
            session: None,
            session_dir: None,
            models: None,
            tools: None,
            no_tools: false,
            extensions: Vec::new(),
            no_extensions: false,
            print: false,
            export: None,
            no_skills: false,
            skills: Vec::new(),
            prompt_templates: Vec::new(),
            no_prompt_templates: false,
            themes: Vec::new(),
            no_themes: false,
            list_models: None,
            list_known_models: None,
            verbose: false,
            messages: Vec::new(),
            file_args: Vec::new(),
            unknown_flags: FlagTable::new(),
        }
    }
}

proof fn contains_pushed(items: Seq<ItemView>, item: ItemView, other: ItemView)
    ensures
        items.push(item).contains(other) == (items.contains(other) || item == other),
{
    let after = items.push(item);
    if items.contains(other) {
        let i = choose|i: int| 0 <= i < items.len() && items[i] == other;
        assert(after[i] == other);
    }
    if item == other {
        assert(after[items.len() as int] == other);
    }
}

proof fn pushed(items: Seq<ItemView>, item: ItemView)
    ensures
        forall|other: Switch| #[trigger]
            switched(items.push(item), other) == (switched(items, other) || item
                == ItemView::Switch(other)),
        forall|setting: Setting| #[trigger]
            values_of(items.push(item), setting) == (match item {
                ItemView::Valued(named, value) => if named == setting {
                    values_of(items, setting).push(value)
                } else {
                    values_of(items, setting)
                },
                _ => values_of(items, setting),
            }),
        forall|listing: Listing| #[trigger]
            last_listing(items.push(item), listing) == (match item {
                ItemView::Listing(named, search) => if named == listing {
                    Some(search)
                } else {
                    last_listing(items, listing)
                },
                _ => last_listing(items, listing),
            }),
        messages_of(items.push(item)) == (match item {
            ItemView::Message(message) => messages_of(items).push(message),
            _ => messages_of(items),
        }),
        files_of(items.push(item)) == (match item {
            ItemView::File(path) => files_of(items).push(path),
            _ => files_of(items),
        }),
        extension_values(items.push(item)) == (match item {
            ItemView::Extension(name, value) => extension_values(items).insert(name, value),
            _ => extension_values(items),
        }),
{
    reveal(values_of);
    reveal(last_listing);
    reveal(messages_of);
    reveal(files_of);
    reveal(extension_values);
    reveal(switched);
    assert(items.push(item).drop_last() =~= items);
    assert forall|other: Switch| #[trigger]
        switched(items.push(item), other) == (switched(items, other) || item == ItemView::Switch(
            other,
        )) by {
        contains_pushed(items, item, ItemView::Switch(other));
    }
}

proof fn pushed_value(values: Seq<Seq<char>>, value: Seq<char>)
    ensures
        last_of(values.push(value)) == Some(value),
        last_thinking(values.push(value)) == (if is_thinking_level(value) {
            Some(value)
        } else {
            last_thinking(values)
        }),
        last_mode(values.push(value)) == (if mode_named(value) is Some {
            mode_named(value)
        } else {
            last_mode(values)
        }),
{
    reveal(last_thinking);
    reveal(last_mode);
    assert(values.push(value).drop_last() =~= values);
}

/// Reads the command line without extension flags.
pub fn parse_args(args: &[String]) -> (r: Args)
    ensures
        r@ == asked_by(text::texts(args@), None),
{
    parse_args_with_extension_flags(args, None)
}

/// Reads the command line, with the flags that extensions registered.
pub fn parse_args_with_extension_flags(
    args: &[String],
    extension_flags: Option<&FlagTable<ExtensionFlagType>>,
) -> (r: Args)
    ensures
        r@ == asked_by(text::texts(args@), flag_types(extension_flags)),
{
    let mut items = read_items(args, extension_flags);
    let ghost all = item_views(items@);
    let mut result = Args::default();
    let ghost mut done: Seq<ItemView> = Seq::empty();
    assert(done + item_views(items@) =~= all);
    while items.len() > 0
        invariant
            result.reflects(done),
            done + item_views(items@) == all,
        decreases items.len(),
    {
        let ghost rest = item_views(items@);
        let item = items.remove(0);
        let ghost before = done;
        result = result.apply(item, Ghost(done));
        proof {
            done = done.push(item@);
            assert(rest =~= seq![item@] + item_views(items@));
            assert(done + item_views(items@) =~= before + rest);
        }
    }
    assert(done + item_views(items@) =~= done);
    result
}

/// Without registered flags no extension flag is read.
pub proof fn no_flags_no_extension_values(args: Seq<Seq<char>>)
    ensures
        asked_by(args, None).unknown_flags == Map::<Seq<char>, FlagValueView>::empty(),
{
    items_hold_no_extension(args, 0);
    no_extension_values(items_from(args, None, 0));
}

proof fn items_hold_no_extension(args: Seq<Seq<char>>, i: int)
    ensures
        forall|k: int|
            0 <= k < items_from(args, None, i).len() ==> !(#[trigger] items_from(args, None, i)[k]
                is Extension),
    decreases args.len() + 1 - i,
{
    if 0 <= i < args.len() {
        let (item, two) = item_at(args, None, i);
        let next = if two {
            i + 2
        } else {
            i + 1
        };
        items_hold_no_extension(args, next);
        let rest = items_from(args, None, next);
        assert forall|k: int| 0 <= k < items_from(args, None, i).len() implies !(
        #[trigger] items_from(args, None, i)[k] is Extension) by {
            if k > 0 {
                assert(items_from(args, None, i)[k] == rest[k - 1]);
            }
        }
    }
}

proof fn no_extension_values(items: Seq<ItemView>)
    requires
        forall|k: int| 0 <= k < items.len() ==> !(#[trigger] items[k] is Extension),
    ensures
        extension_values(items) == Map::<Seq<char>, FlagValueView>::empty(),
    decreases items.len(),
{
    reveal(extension_values);
    if items.len() > 0 {
        assert forall|k: int| 0 <= k < items.drop_last().len() implies !(
        #[trigger] items.drop_last()[k] is Extension) by {
            assert(items.drop_last()[k] == items[k]);
        }
        no_extension_values(items.drop_last());
    }
}

/// A word that does not start with a dash names no switch, setting or listing.
pub proof fn plain_words_name_nothing(word: Seq<char>)
    requires
        word.len() > 0 ==> word[0] != '-',
    ensures
        switch_named(word) is None,
        setting_named(word) is None,
        listing_named(word) is None,
{
    names_differ();
}

/// The letters by which the names of switches, settings and listings differ.
proof fn names_differ()
    ensures
        "--help"@.len() == 6,
        "--help"@[0] == '-',
        "--help"@[1] == '-',
        "--help"@[2] == 'h',
        "--help"@[5] == 'p',
        "-h"@.len() == 2,
        "-h"@[0] == '-',
        "-h"@[1] == 'h',
        "--version"@.len() == 9,
        "--version"@[0] == '-',
        "--version"@[1] == '-',
        "--version"@[2] == 'v',
        "--version"@[5] == 's',
        "-v"@.len() == 2,
        "-v"@[0] == '-',
        "-v"@[1] == 'v',
        "--continue"@.len() == 10,
        "--continue"@[0] == '-',
        "--continue"@[1] == '-',
        "--continue"@[2] == 'c',
        "--continue"@[5] == 't',
        "-c"@.len() == 2,
        "-c"@[0] == '-',
        "-c"@[1] == 'c',
        "--resume"@.len() == 8,
        "--resume"@[0] == '-',
        "--resume"@[1] == '-',
        "--resume"@[2] == 'r',
        "--resume"@[5] == 'u',
        "-r"@.len() == 2,
        "-r"@[0] == '-',
        "-r"@[1] == 'r',
        "--no-session"@.len() == 12,
        "--no-session"@[0] == '-',
        "--no-session"@[1] == '-',
        "--no-session"@[2] == 'n',
        "--no-session"@[5] == 's',
        "--no-tools"@.len() == 10,
        "--no-tools"@[0] == '-',
        "--no-tools"@[1] == '-',
        "--no-tools"@[2] == 'n',
        "--no-tools"@[5] == 't',
        "--print"@.len() == 7,
        "--print"@[0] == '-',
        "--print"@[1] == '-',
        "--print"@[2] == 'p',
        "--print"@[5] == 'n',
        "-p"@.len() == 2,
        "-p"@[0] == '-',
        "-p"@[1] == 'p',
        "--no-extensions"@.len() == 15,
        "--no-extensions"@[0] == '-',
        "--no-extensions"@[1] == '-',
        "--no-extensions"@[2] == 'n',
        "--no-extensions"@[5] == 'e',
        "-ne"@.len() == 3,
        "-ne"@[0] == '-',
        "-ne"@[1] == 'n',
        "-ne"@[2] == 'e',
        "--no-skills"@.len() == 11,
        "--no-skills"@[0] == '-',
        "--no-skills"@[1] == '-',
        "--no-skills"@[2] == 'n',
        "--no-skills"@[5] == 's',
        "-ns"@.len() == 3,
        "-ns"@[0] == '-',
        "-ns"@[1] == 'n',
        "-ns"@[2] == 's',
        "--no-prompt-templates"@.len() == 21,
        "--no-prompt-templates"@[0] == '-',
        "--no-prompt-templates"@[1] == '-',
        "--no-prompt-templates"@[2] == 'n',
        "--no-prompt-templates"@[5] == 'p',
        "-np"@.len() == 3,
        "-np"@[0] == '-',
        "-np"@[1] == 'n',
        "-np"@[2] == 'p',
        "--no-themes"@.len() == 11,
        "--no-themes"@[0] == '-',
        "--no-themes"@[1] == '-',
        "--no-themes"@[2] == 'n',
        "--no-themes"@[5] == 't',
        "--verbose"@.len() == 9,
        "--verbose"@[0] == '-',
        "--verbose"@[1] == '-',
        "--verbose"@[2] == 'v',
        "--verbose"@[5] == 'b',
        "--mode"@.len() == 6,
        "--mode"@[0] == '-',
        "--mode"@[1] == '-',
        "--mode"@[2] == 'm',
        "--mode"@[5] == 'e',
        "--provider"@.len() == 10,
        "--provider"@[0] == '-',
        "--provider"@[1] == '-',
        "--provider"@[2] == 'p',
        "--provider"@[5] == 'v',
        "--model"@.len() == 7,
        "--model"@[0] == '-',
        "--model"@[1] == '-',
        "--model"@[2] == 'm',
        "--model"@[5] == 'e',
        "--api-key"@.len() == 9,
        "--api-key"@[0] == '-',
        "--api-key"@[1] == '-',
        "--api-key"@[2] == 'a',
        "--api-key"@[5] == '-',
        "--system-prompt"@.len() == 15,
        "--system-prompt"@[0] == '-',
        "--system-prompt"@[1] == '-',
        "--system-prompt"@[2] == 's',
        "--system-prompt"@[5] == 't',
        "--append-system-prompt"@.len() == 22,
        "--append-system-prompt"@[0] == '-',
        "--append-system-prompt"@[1] == '-',
        "--append-system-prompt"@[2] == 'a',
        "--append-system-prompt"@[5] == 'e',
        "--session"@.len() == 9,
        "--session"@[0] == '-',
        "--session"@[1] == '-',
        "--session"@[2] == 's',
        "--session"@[5] == 's',
        "--session-dir"@.len() == 13,
        "--session-dir"@[0] == '-',
        "--session-dir"@[1] == '-',
        "--session-dir"@[2] == 's',
        "--session-dir"@[5] == 's',
        "--models"@.len() == 8,
        "--models"@[0] == '-',
        "--models"@[1] == '-',
        "--models"@[2] == 'm',
        "--models"@[5] == 'e',
        "--tools"@.len() == 7,
        "--tools"@[0] == '-',
        "--tools"@[1] == '-',
        "--tools"@[2] == 't',
        "--tools"@[5] == 'l',
        "--thinking"@.len() == 10,
        "--thinking"@[0] == '-',
        "--thinking"@[1] == '-',
        "--thinking"@[2] == 't',
        "--thinking"@[5] == 'n',
        "--export"@.len() == 8,
        "--export"@[0] == '-',
        "--export"@[1] == '-',
        "--export"@[2] == 'e',
        "--export"@[5] == 'o',
        "--extension"@.len() == 11,
        "--extension"@[0] == '-',
        "--extension"@[1] == '-',
        "--extension"@[2] == 'e',
        "--extension"@[5] == 'e',
        "-e"@.len() == 2,
        "-e"@[0] == '-',
        "-e"@[1] == 'e',
        "--skill"@.len() == 7,
        "--skill"@[0] == '-',
        "--skill"@[1] == '-',
        "--skill"@[2] == 's',
        "--skill"@[5] == 'l',
        "--prompt-template"@.len() == 17,
        "--prompt-template"@[0] == '-',
        "--prompt-template"@[1] == '-',
        "--prompt-template"@[2] == 'p',
        "--prompt-template"@[5] == 'm',
        "--theme"@.len() == 7,
        "--theme"@[0] == '-',
        "--theme"@[1] == '-',
        "--theme"@[2] == 't',
        "--theme"@[5] == 'm',
        "--list-models"@.len() == 13,
        "--list-models"@[0] == '-',
        "--list-models"@[1] == '-',
        "--list-models"@[2] == 'l',
        "--list-models"@[5] == 't',
        "--list-known-models"@.len() == 19,
        "--list-known-models"@[0] == '-',
        "--list-known-models"@[1] == '-',
        "--list-known-models"@[2] == 'l',
        "--list-known-models"@[5] == 't',
{
    reveal_strlit("--help");
    reveal_strlit("-h");
    reveal_strlit("--version");
    reveal_strlit("-v");
    reveal_strlit("--continue");
    reveal_strlit("-c");
    reveal_strlit("--resume");
    reveal_strlit("-r");
    reveal_strlit("--no-session");
    reveal_strlit("--no-tools");
    reveal_strlit("--print");
    reveal_strlit("-p");
    reveal_strlit("--no-extensions");
    reveal_strlit("-ne");
    reveal_strlit("--no-skills");
    reveal_strlit("-ns");
    reveal_strlit("--no-prompt-templates");
    reveal_strlit("-np");
    reveal_strlit("--no-themes");
    reveal_strlit("--verbose");
    reveal_strlit("--mode");
    reveal_strlit("--provider");
    reveal_strlit("--model");
    reveal_strlit("--api-key");
    reveal_strlit("--system-prompt");
    reveal_strlit("--append-system-prompt");
    reveal_strlit("--session");
    reveal_strlit("--session-dir");
    reveal_strlit("--models");
    reveal_strlit("--tools");
    reveal_strlit("--thinking");
    reveal_strlit("--export");
    reveal_strlit("--extension");
    reveal_strlit("-e");
    reveal_strlit("--skill");
    reveal_strlit("--prompt-template");
    reveal_strlit("--theme");
    reveal_strlit("--list-models");
    reveal_strlit("--list-known-models");
}

/// An item does not depend on the arguments before it.
proof fn item_behind(a: Seq<Seq<char>>, b: Seq<Seq<char>>, flags: Option<FlagTypes>, i: int)
    requires
        0 <= i < b.len(),
    ensures
        item_at(a + b, flags, a.len() + i) == item_at(b, flags, i),
{
    assert((a + b)[a.len() + i] == b[i]);
    if i + 1 < b.len() {
        assert((a + b)[a.len() + i + 1] == b[i + 1]);
    }
}

/// Items do not depend on the arguments before them.
proof fn items_behind(a: Seq<Seq<char>>, b: Seq<Seq<char>>, flags: Option<FlagTypes>, i: int)
    requires
        0 <= i,
    ensures
        items_from(a + b, flags, a.len() + i) == items_from(b, flags, i),
    decreases b.len() + 1 - i,
{
    if i < b.len() {
        item_behind(a, b, flags, i);
        let (item, two) = item_at(b, flags, i);
        let next = if two {
            i + 2
        } else {
            i + 1
        };
        items_behind(a, b, flags, next);
    }
}

/// An item that takes one argument, and the items behind it.
proof fn one_argument(arg: Seq<char>, rest: Seq<Seq<char>>, flags: Option<FlagTypes>)
    requires
        !item_at(seq![arg] + rest, flags, 0).1,
    ensures
        items_from(seq![arg] + rest, flags, 0) == seq![item_at(seq![arg] + rest, flags, 0).0]
            + items_from(rest, flags, 0),
{
    items_behind(seq![arg], rest, flags, 0);
}

/// An item that takes two arguments, and the items behind it.
proof fn two_arguments(arg: Seq<char>, value: Seq<char>, rest: Seq<Seq<char>>, flags: Option<FlagTypes>)
    requires
        item_at(seq![arg, value] + rest, flags, 0).1,
    ensures
        items_from(seq![arg, value] + rest, flags, 0) == seq![
            item_at(seq![arg, value] + rest, flags, 0).0,
        ] + items_from(rest, flags, 0),
{
    items_behind(seq![arg, value], rest, flags, 0);
}

proof fn contains_in_two(a: Seq<ItemView>, b: Seq<ItemView>, item: ItemView)
    ensures
        (a + b).contains(item) == (a.contains(item) || b.contains(item)),
{
    let whole = a + b;
    if a.contains(item) {
        let i = choose|i: int| 0 <= i < a.len() && a[i] == item;
        assert(whole[i] == item);
    }
    if b.contains(item) {
        let i = choose|i: int| 0 <= i < b.len() && b[i] == item;
        assert(whole[a.len() + i] == item);
    }
    if whole.contains(item) {
        let i = choose|i: int| 0 <= i < whole.len() && whole[i] == item;
        if i < a.len() {
            assert(a[i] == item);
        } else {
            assert(b[i - a.len()] == item);
        }
    }
}

/// What stands in the items before and behind an item.
proof fn in_two(a: Seq<ItemView>, b: Seq<ItemView>)
    ensures
        forall|setting: Setting| #[trigger]
            values_of(a + b, setting) == values_of(a, setting) + values_of(b, setting),
        forall|switch: Switch| #[trigger]
            switched(a + b, switch) == (switched(a, switch) || switched(b, switch)),
        forall|listing: Listing| #[trigger]
            last_listing(a + b, listing) == (if last_listing(b, listing) is Some {
                last_listing(b, listing)
            } else {
                last_listing(a, listing)
            }),
        messages_of(a + b) == messages_of(a) + messages_of(b),
        files_of(a + b) == files_of(a) + files_of(b),
        extension_values(a + b) == extension_values(a).union_prefer_right(extension_values(b)),
    decreases b.len(),
{
    if b.len() == 0 {
        assert(a + b =~= a);
        reveal(values_of);
        reveal(last_listing);
        reveal(messages_of);
        reveal(files_of);
        reveal(extension_values);
        reveal(switched);
        assert forall|setting: Setting| #[trigger]
            values_of(a + b, setting) == values_of(a, setting) + values_of(b, setting) by {
            assert(values_of(a, setting) + values_of(b, setting) =~= values_of(a, setting));
        }
        assert(messages_of(a) + messages_of(b) =~= messages_of(a));
        assert(files_of(a) + files_of(b) =~= files_of(a));
        assert(extension_values(a).union_prefer_right(extension_values(b)) =~= extension_values(a));
    } else {
        let front = b.drop_last();
        in_two(a, front);
        pushed(a + front, b.last());
        pushed(front, b.last());
        assert(a + b =~= (a + front).push(b.last()));
        assert(b =~= front.push(b.last()));
        assert forall|setting: Setting| #[trigger]
            values_of(a + b, setting) == values_of(a, setting) + values_of(b, setting) by {
            assert(values_of(a + b, setting) =~= values_of(a, setting) + values_of(b, setting));
        }
        assert(messages_of(a + b) =~= messages_of(a) + messages_of(b));
        assert(files_of(a + b) =~= files_of(a) + files_of(b));
        assert(extension_values(a + b) =~= extension_values(a).union_prefer_right(
            extension_values(b),
        ));
    }
}

/// What one item asks for.
proof fn of_one(item: ItemView)
    ensures
        forall|setting: Setting| #[trigger]
            values_of(seq![item], setting) == (match item {
                ItemView::Valued(named, value) => if named == setting {
                    seq![value]
                } else {
                    Seq::empty()
                },
                _ => Seq::empty(),
            }),
        forall|switch: Switch| #[trigger]
            switched(seq![item], switch) == (item == ItemView::Switch(switch)),
        forall|listing: Listing| #[trigger]
            last_listing(seq![item], listing) == (match item {
                ItemView::Listing(named, search) => if named == listing {
                    Some(search)
                } else {
                    None
                },
                _ => None,
            }),
        messages_of(seq![item]) == (match item {
            ItemView::Message(message) => seq![message],
            _ => Seq::empty(),
        }),
        files_of(seq![item]) == (match item {
            ItemView::File(path) => seq![path],
            _ => Seq::empty(),
        }),
        extension_values(seq![item]) == (match item {
            ItemView::Extension(name, value) => map![name => value],
            _ => Map::empty(),
        }),
{
    let none = Seq::<ItemView>::empty();
    assert(none.push(item) =~= seq![item]);
    pushed(none, item);
    reveal(values_of);
    reveal(last_listing);
    reveal(messages_of);
    reveal(files_of);
    reveal(extension_values);
    reveal(switched);
    assert forall|setting: Setting| #[trigger]
        values_of(seq![item], setting) == (match item {
            ItemView::Valued(named, value) => if named == setting {
                seq![value]
            } else {
                Seq::empty()
            },
            _ => Seq::empty(),
        }) by {
        assert(values_of(none, setting) =~= Seq::<Seq<char>>::empty());
    }
    assert(messages_of(none) =~= Seq::<Seq<char>>::empty());
    assert(files_of(none) =~= Seq::<Seq<char>>::empty());
    assert(extension_values(none) =~= Map::<Seq<char>, FlagValueView>::empty());
}

proof fn last_in_two(a: Seq<Seq<char>>, b: Seq<Seq<char>>)
    ensures
        last_of(a + b) == (if b.len() > 0 {
            last_of(b)
        } else {
            last_of(a)
        }),
        last_thinking(a + b) == (if last_thinking(b) is Some {
            last_thinking(b)
        } else {
            last_thinking(a)
        }),
        last_mode(a + b) == (if last_mode(b) is Some {
            last_mode(b)
        } else {
            last_mode(a)
        }),
    decreases b.len(),
{
    reveal(last_thinking);
    reveal(last_mode);
    if b.len() == 0 {
        assert(a + b =~= a);
    } else {
        last_in_two(a, b.drop_last());
        assert((a + b).drop_last() =~= a + b.drop_last());
        assert((a + b).last() == b.last());
    }
}

/// The values of a setting where one more stands before the others.
proof fn one_more_value(value: Seq<char>, rest: Seq<Seq<char>>)
    ensures
        last_of(seq![value] + rest) == (if rest.len() > 0 {
            last_of(rest)
        } else {
            Some(value)
        }),
        last_thinking(seq![value] + rest) == (if last_thinking(rest) is Some {
            last_thinking(rest)
        } else if is_thinking_level(value) {
            Some(value)
        } else {
            None
        }),
        last_mode(seq![value] + rest) == (if last_mode(rest) is Some {
            last_mode(rest)
        } else {
            mode_named(value)
        }),
{
    let none = Seq::<Seq<char>>::empty();
    last_in_two(seq![value], rest);
    pushed_value(none, value);
    assert(none.push(value) =~= seq![value]);
    reveal(last_thinking);
    reveal(last_mode);
}

/// The value that counts: a later one, or else this one.
pub open spec fn unless_later<T>(later: Option<T>, value: T) -> Option<T> {
    if later is Some {
        later
    } else {
        Some(value)
    }
}

/// Nothing is added to what is asked for.
proof fn nothing_added(rest: Seq<Seq<char>>)
    ensures
        Seq::<Seq<char>>::empty() + rest == rest,
{
    assert(Seq::<Seq<char>>::empty() + rest =~= rest);
}

/// What stands in the items, where one stands before the others.
proof fn before_others(item: ItemView, items: Seq<ItemView>)
    ensures
        forall|setting: Setting| #[trigger]
            values_of(seq![item] + items, setting) == (match item {
                ItemView::Valued(named, value) => if named == setting {
                    seq![value] + values_of(items, setting)
                } else {
                    values_of(items, setting)
                },
                _ => values_of(items, setting),
            }),
        forall|switch: Switch| #[trigger]
            switched(seq![item] + items, switch) == (item == ItemView::Switch(switch) || switched(
                items,
                switch,
            )),
        forall|listing: Listing| #[trigger]
            last_listing(seq![item] + items, listing) == (if last_listing(items, listing) is Some {
                last_listing(items, listing)
            } else {
                match item {
                    ItemView::Listing(named, search) => if named == listing {
                        Some(search)
                    } else {
                        None
                    },
                    _ => None,
                }
            }),
        messages_of(seq![item] + items) == (match item {
            ItemView::Message(message) => seq![message] + messages_of(items),
            _ => messages_of(items),
        }),
        files_of(seq![item] + items) == (match item {
            ItemView::File(path) => seq![path] + files_of(items),
            _ => files_of(items),
        }),
        extension_values(seq![item] + items) == (match item {
            ItemView::Extension(name, value) => map![name => value].union_prefer_right(
                extension_values(items),
            ),
            _ => extension_values(items),
        }),
{
    in_two(seq![item], items);
    of_one(item);
    assert forall|setting: Setting| #[trigger]
        values_of(seq![item] + items, setting) == (match item {
            ItemView::Valued(named, value) => if named == setting {
                seq![value] + values_of(items, setting)
            } else {
                values_of(items, setting)
            },
            _ => values_of(items, setting),
        }) by {
        nothing_added(values_of(items, setting));
    }
    nothing_added(messages_of(items));
    nothing_added(files_of(items));
    assert(Map::<Seq<char>, FlagValueView>::empty().union_prefer_right(extension_values(items))
        =~= extension_values(items));
}

/// What is asked for with one more value of a setting before the others.
#[verifier::rlimit(40)]
proof fn asked_with_value(setting: Setting, value: Seq<char>, items: Seq<ItemView>)
    ensures
        ({
            let before = asked(items);
            let after = asked(seq![ItemView::Valued(setting, value)] + items);
            &&& after.provider == (if setting == Setting::Provider {
                unless_later(before.provider, value)
            } else {
                before.provider
            })
            &&& after.model == (if setting == Setting::Model {
                unless_later(before.model, value)
            } else {
                before.model
            })
            &&& after.api_key == (if setting == Setting::ApiKey {
                unless_later(before.api_key, value)
            } else {
                before.api_key
            })
            &&& after.system_prompt == (if setting == Setting::SystemPrompt {
                unless_later(before.system_prompt, value)
            } else {
                before.system_prompt
            })
            &&& after.append_system_prompt == (if setting == Setting::AppendSystemPrompt {
                unless_later(before.append_system_prompt, value)
            } else {
                before.append_system_prompt
            })
            &&& after.session == (if setting == Setting::Session {
                unless_later(before.session, value)
            } else {
                before.session
            })
            &&& after.session_dir == (if setting == Setting::SessionDir {
                unless_later(before.session_dir, value)
            } else {
                before.session_dir
            })
            &&& after.export == (if setting == Setting::Export {
                unless_later(before.export, value)
            } else {
                before.export
            })
            &&& after.models == (if setting == Setting::Models {
                unless_later(before.models, csv_entries(value))
            } else {
                before.models
            })
            &&& after.tools == (if setting == Setting::Tools {
                unless_later(before.tools, known_tools(csv_entries(value)))
            } else {
                before.tools
            })
            &&& after.mode == (if setting == Setting::Mode && mode_named(value) is Some {
                unless_later(before.mode, mode_named(value)->0)
            } else {
                before.mode
            })
            &&& after.thinking == (if setting == Setting::Thinking && is_thinking_level(value) {
                unless_later(before.thinking, value)
            } else {
                before.thinking
            })
            &&& after.extensions == (if setting == Setting::Extension {
                seq![value] + before.extensions
            } else {
                before.extensions
            })
            &&& after.skills == (if setting == Setting::Skill {
                seq![value] + before.skills
            } else {
                before.skills
            })
            &&& after.prompt_templates == (if setting == Setting::PromptTemplate {
                seq![value] + before.prompt_templates
            } else {
                before.prompt_templates
            })
            &&& after.themes == (if setting == Setting::Theme {
                seq![value] + before.themes
            } else {
                before.themes
            })
            &&& after.continue_session == before.continue_session
            &&& after.resume == before.resume
            &&& after.help == before.help
            &&& after.version == before.version
            &&& after.no_session == before.no_session
            &&& after.no_tools == before.no_tools
            &&& after.no_extensions == before.no_extensions
            &&& after.print == before.print
            &&& after.no_skills == before.no_skills
            &&& after.no_prompt_templates == before.no_prompt_templates
            &&& after.no_themes == before.no_themes
            &&& after.verbose == before.verbose
            &&& after.messages == before.messages
            &&& after.file_args == before.file_args
            &&& after.unknown_flags == before.unknown_flags
            &&& after.list_models == before.list_models
            &&& after.list_known_models == before.list_known_models
        }),
{
    before_others(ItemView::Valued(setting, value), items);
    one_more_value(value, values_of(items, setting));
}

/// What is asked for with another item before the others.
#[verifier::rlimit(40)]
proof fn asked_with_other(item: ItemView, items: Seq<ItemView>)
    requires
        !(item is Valued),
        !(item is Switch),
    ensures
        asked(seq![item] + items) == (match item {
            ItemView::Message(message) => ArgsView {
                messages: seq![message] + asked(items).messages,
                ..asked(items)
            },
            ItemView::File(path) => ArgsView {
                file_args: seq![path] + asked(items).file_args,
                ..asked(items)
            },
            ItemView::Listing(Listing::Models, search) => ArgsView {
                list_models: unless_later(asked(items).list_models, search),
                ..asked(items)
            },
            ItemView::Listing(Listing::KnownModels, search) => ArgsView {
                list_known_models: unless_later(asked(items).list_known_models, search),
                ..asked(items)
            },
            ItemView::Extension(name, value) => ArgsView {
                unknown_flags: map![name => value].union_prefer_right(asked(items).unknown_flags),
                ..asked(items)
            },
            _ => asked(items),
        }),
{
    before_others(item, items);
}

/// What is asked for with one more switch before the others.
#[verifier::rlimit(40)]
proof fn asked_with_switch(switch: Switch, items: Seq<ItemView>)
    ensures
        asked(seq![ItemView::Switch(switch)] + items) == (match switch {
            Switch::Help => ArgsView { help: true, ..asked(items) },
            Switch::Version => ArgsView { version: true, ..asked(items) },
            Switch::Continue => ArgsView { continue_session: true, ..asked(items) },
            Switch::Resume => ArgsView { resume: true, ..asked(items) },
            Switch::NoSession => ArgsView { no_session: true, ..asked(items) },
            Switch::NoTools => ArgsView { no_tools: true, ..asked(items) },
            Switch::Print => ArgsView { print: true, ..asked(items) },
            Switch::NoExtensions => ArgsView { no_extensions: true, ..asked(items) },
            Switch::NoSkills => ArgsView { no_skills: true, ..asked(items) },
            Switch::NoPromptTemplates => ArgsView { no_prompt_templates: true, ..asked(items) },
            Switch::NoThemes => ArgsView { no_themes: true, ..asked(items) },
            Switch::Verbose => ArgsView { verbose: true, ..asked(items) },
        }),
{
    before_others(ItemView::Switch(switch), items);
}

proof fn setting_is_read(
    name: Seq<char>,
    setting: Setting,
    value: Seq<char>,
    rest: Seq<Seq<char>>,
    flags: Option<FlagTypes>,
)
    requires
        switch_named(name) is None,
        setting_named(name) == Some(setting),
    ensures
        asked_by(seq![name, value] + rest, flags) == asked(
            seq![ItemView::Valued(setting, value)] + items_from(rest, flags, 0),
        ),
{
    let all = seq![name, value] + rest;
    assert(all[0] == name);
    assert(all[1] == value);
    two_arguments(name, value, rest, flags);
}

proof fn switch_is_read(
    name: Seq<char>,
    switch: Switch,
    rest: Seq<Seq<char>>,
    flags: Option<FlagTypes>,
)
    requires
        switch_named(name) == Some(switch),
    ensures
        asked_by(seq![name] + rest, flags) == asked(
            seq![ItemView::Switch(switch)] + items_from(rest, flags, 0),
        ),
{
    let all = seq![name] + rest;
    assert(all[0] == name);
    one_argument(name, rest, flags);
}

/// A setting with one value is read into its own field and changes nothing else. A later value of the
/// same setting wins.
pub proof fn settings_are_read(value: Seq<char>, rest: Seq<Seq<char>>, flags: Option<FlagTypes>)
    ensures
        asked_by(seq!["--provider"@, value] + rest, flags) == (ArgsView {
            provider: unless_later(asked_by(rest, flags).provider, value),
            ..asked_by(rest, flags)
        }),
        asked_by(seq!["--model"@, value] + rest, flags) == (ArgsView {
            model: unless_later(asked_by(rest, flags).model, value),
            ..asked_by(rest, flags)
        }),
        asked_by(seq!["--api-key"@, value] + rest, flags) == (ArgsView {
            api_key: unless_later(asked_by(rest, flags).api_key, value),
            ..asked_by(rest, flags)
        }),
        asked_by(seq!["--system-prompt"@, value] + rest, flags) == (ArgsView {
            system_prompt: unless_later(asked_by(rest, flags).system_prompt, value),
            ..asked_by(rest, flags)
        }),
        asked_by(seq!["--append-system-prompt"@, value] + rest, flags) == (ArgsView {
            append_system_prompt: unless_later(asked_by(rest, flags).append_system_prompt, value),
            ..asked_by(rest, flags)
        }),
        asked_by(seq!["--session"@, value] + rest, flags) == (ArgsView {
            session: unless_later(asked_by(rest, flags).session, value),
            ..asked_by(rest, flags)
        }),
        asked_by(seq!["--session-dir"@, value] + rest, flags) == (ArgsView {
            session_dir: unless_later(asked_by(rest, flags).session_dir, value),
            ..asked_by(rest, flags)
        }),
        asked_by(seq!["--export"@, value] + rest, flags) == (ArgsView {
            export: unless_later(asked_by(rest, flags).export, value),
            ..asked_by(rest, flags)
        }),
{
    names_differ();
    let items = items_from(rest, flags, 0);
    setting_is_read("--provider"@, Setting::Provider, value, rest, flags);
    asked_with_value(Setting::Provider, value, items);
    setting_is_read("--model"@, Setting::Model, value, rest, flags);
    asked_with_value(Setting::Model, value, items);
    setting_is_read("--api-key"@, Setting::ApiKey, value, rest, flags);
    asked_with_value(Setting::ApiKey, value, items);
    setting_is_read("--system-prompt"@, Setting::SystemPrompt, value, rest, flags);
    asked_with_value(Setting::SystemPrompt, value, items);
    setting_is_read("--append-system-prompt"@, Setting::AppendSystemPrompt, value, rest, flags);
    asked_with_value(Setting::AppendSystemPrompt, value, items);
    setting_is_read("--session"@, Setting::Session, value, rest, flags);
    asked_with_value(Setting::Session, value, items);
    setting_is_read("--session-dir"@, Setting::SessionDir, value, rest, flags);
    asked_with_value(Setting::SessionDir, value, items);
    setting_is_read("--export"@, Setting::Export, value, rest, flags);
    asked_with_value(Setting::Export, value, items);
}

/// A setting that may be given more than once keeps its values in order, and changes nothing else.
pub proof fn repeated_settings_are_read(
    value: Seq<char>,
    rest: Seq<Seq<char>>,
    flags: Option<FlagTypes>,
)
    ensures
        asked_by(seq!["--extension"@, value] + rest, flags) == (ArgsView {
            extensions: seq![value] + asked_by(rest, flags).extensions,
            ..asked_by(rest, flags)
        }),
        asked_by(seq!["-e"@, value] + rest, flags) == (ArgsView {
            extensions: seq![value] + asked_by(rest, flags).extensions,
            ..asked_by(rest, flags)
        }),
        asked_by(seq!["--skill"@, value] + rest, flags) == (ArgsView {
            skills: seq![value] + asked_by(rest, flags).skills,
            ..asked_by(rest, flags)
        }),
        asked_by(seq!["--prompt-template"@, value] + rest, flags) == (ArgsView {
            prompt_templates: seq![value] + asked_by(rest, flags).prompt_templates,
            ..asked_by(rest, flags)
        }),
        asked_by(seq!["--theme"@, value] + rest, flags) == (ArgsView {
            themes: seq![value] + asked_by(rest, flags).themes,
            ..asked_by(rest, flags)
        }),
{
    names_differ();
    let items = items_from(rest, flags, 0);
    setting_is_read("--extension"@, Setting::Extension, value, rest, flags);
    asked_with_value(Setting::Extension, value, items);
    setting_is_read("-e"@, Setting::Extension, value, rest, flags);
    asked_with_value(Setting::Extension, value, items);
    setting_is_read("--skill"@, Setting::Skill, value, rest, flags);
    asked_with_value(Setting::Skill, value, items);
    setting_is_read("--prompt-template"@, Setting::PromptTemplate, value, rest, flags);
    asked_with_value(Setting::PromptTemplate, value, items);
    setting_is_read("--theme"@, Setting::Theme, value, rest, flags);
    asked_with_value(Setting::Theme, value, items);
}

/// Each output mode is read under its name. Another value is passed over.
pub proof fn modes_are_read(value: Seq<char>, rest: Seq<Seq<char>>, flags: Option<FlagTypes>)
    ensures
        asked_by(seq!["--mode"@, "text"@] + rest, flags) == (ArgsView {
            mode: unless_later(asked_by(rest, flags).mode, OutputMode::Text),
            ..asked_by(rest, flags)
        }),
        asked_by(seq!["--mode"@, "json"@] + rest, flags) == (ArgsView {
            mode: unless_later(asked_by(rest, flags).mode, OutputMode::Json),
            ..asked_by(rest, flags)
        }),
        asked_by(seq!["--mode"@, "rpc"@] + rest, flags) == (ArgsView {
            mode: unless_later(asked_by(rest, flags).mode, OutputMode::Rpc),
            ..asked_by(rest, flags)
        }),
        value != "text"@ && value != "json"@ && value != "rpc"@ ==> asked_by(
            seq!["--mode"@, value] + rest,
            flags,
        ) == asked_by(rest, flags),
{
    names_differ();
    reveal_strlit("text");
    reveal_strlit("json");
    reveal_strlit("rpc");
    assert("text"@[0] == 't');
    assert("json"@[0] == 'j');
    assert("rpc"@[0] == 'r');
    let items = items_from(rest, flags, 0);
    let words = seq!["text"@, "json"@, "rpc"@, value];
    assert forall|i: int| 0 <= i < 4 implies asked_by(
        seq!["--mode"@, #[trigger] words[i]] + rest,
        flags,
    ) == asked(seq![ItemView::Valued(Setting::Mode, words[i])] + items) by {
        setting_is_read("--mode"@, Setting::Mode, words[i], rest, flags);
    }
    assert(words[0] == "text"@ && words[1] == "json"@ && words[2] == "rpc"@ && words[3] == value);
    asked_with_value(Setting::Mode, "text"@, items);
    asked_with_value(Setting::Mode, "json"@, items);
    asked_with_value(Setting::Mode, "rpc"@, items);
    asked_with_value(Setting::Mode, value, items);
}

/// Exactly the six thinking levels are read. Another value is passed over.
pub proof fn thinking_levels_are_read(
    value: Seq<char>,
    rest: Seq<Seq<char>>,
    flags: Option<FlagTypes>,
)
    ensures
        seq!["off"@, "minimal"@, "low"@, "medium"@, "high"@, "xhigh"@].contains(value) ==> asked_by(
            seq!["--thinking"@, value] + rest,
            flags,
        ) == (ArgsView {
            thinking: unless_later(asked_by(rest, flags).thinking, value),
            ..asked_by(rest, flags)
        }),
        !seq!["off"@, "minimal"@, "low"@, "medium"@, "high"@, "xhigh"@].contains(value) ==> asked_by(
            seq!["--thinking"@, value] + rest,
            flags,
        ) == asked_by(rest, flags),
{
    names_differ();
    let levels = seq!["off"@, "minimal"@, "low"@, "medium"@, "high"@, "xhigh"@];
    assert(levels[0] == "off"@ && levels[1] == "minimal"@ && levels[2] == "low"@ && levels[3]
        == "medium"@ && levels[4] == "high"@ && levels[5] == "xhigh"@);
    setting_is_read("--thinking"@, Setting::Thinking, value, rest, flags);
    asked_with_value(Setting::Thinking, value, items_from(rest, flags, 0));
}

/// The names of the built-in tools.
pub open spec fn tool_names() -> Seq<Seq<char>> {
    seq!["read"@, "bash"@, "edit"@, "write"@, "grep"@, "find"@, "ls"@]
}

proof fn tools_by_name(name: Seq<char>)
    ensures
        is_tool(name) == tool_names().contains(name),
        is_tool(name) ==> text::trim(name) == name && !name.contains(','),
{
    reveal_strlit("read");
    reveal_strlit("bash");
    reveal_strlit("edit");
    reveal_strlit("write");
    reveal_strlit("grep");
    reveal_strlit("find");
    reveal_strlit("ls");
    let names = tool_names();
    assert(names[0] == "read"@ && names[1] == "bash"@ && names[2] == "edit"@ && names[3]
        == "write"@ && names[4] == "grep"@ && names[5] == "find"@ && names[6] == "ls"@);
    if is_tool(name) {
        assert("read"@[0] == 'r' && "read"@.last() == 'd');
        assert("bash"@[0] == 'b' && "bash"@.last() == 'h');
        assert("edit"@[0] == 'e' && "edit"@.last() == 't');
        assert("write"@[0] == 'w' && "write"@.last() == 'e');
        assert("grep"@[0] == 'g' && "grep"@.last() == 'p');
        assert("find"@[0] == 'f' && "find"@.last() == 'd');
        assert("ls"@[0] == 'l' && "ls"@.last() == 's');
        text::trim_keeps(name);
        if name.contains(',') {
            let i = choose|i: int| 0 <= i < name.len() && name[i] == ',';
            assert("read"@[1] == 'e' && "read"@[2] == 'a' && "read"@[3] == 'd');
            assert("bash"@[1] == 'a' && "bash"@[2] == 's' && "bash"@[3] == 'h');
            assert("edit"@[1] == 'd' && "edit"@[2] == 'i' && "edit"@[3] == 't');
            assert("write"@[1] == 'r' && "write"@[2] == 'i' && "write"@[3] == 't');
            assert("grep"@[1] == 'r' && "grep"@[2] == 'e' && "grep"@[3] == 'p');
            assert("find"@[1] == 'i' && "find"@[2] == 'n' && "find"@[3] == 'd');
            assert("ls"@[1] == 's');
            assert(i == 0 || i == 1 || i == 2 || i == 3 || i == 4);
            assert(name[4] == 'e' || name.len() < 5);
        }
    }
}

/// Of two lists of names one after the other the tools are those of both.
pub proof fn known_tools_in_two(a: Seq<Seq<char>>, b: Seq<Seq<char>>)
    ensures
        known_tools(a + b) == known_tools(a) + known_tools(b),
    decreases b.len(),
{
    if b.len() == 0 {
        assert(a + b =~= a);
        assert(known_tools(a) + known_tools(b) =~= known_tools(a));
    } else {
        known_tools_in_two(a, b.drop_last());
        assert((a + b).drop_last() =~= a + b.drop_last());
        assert((a + b).last() == b.last());
        assert(known_tools(a + b) =~= known_tools(a) + known_tools(b));
    }
}

proof fn tools_are_kept(names: Seq<Seq<char>>)
    requires
        forall|i: int| 0 <= i < names.len() ==> tool_names().contains(#[trigger] names[i]),
    ensures
        known_tools(names) == names,
    decreases names.len(),
{
    if names.len() > 0 {
        let front = names.drop_last();
        assert(forall|i: int| 0 <= i < front.len() ==> front[i] == names[i]);
        tools_are_kept(front);
        tools_by_name(names.last());
        assert(names[names.len() - 1] == names.last());
        assert(front.push(names.last()) =~= names);
    }
}

/// The names of built-in tools come back whole and in order, whatever white space stands around them.
pub proof fn tools_are_read(
    parts: Seq<Seq<char>>,
    names: Seq<Seq<char>>,
    rest: Seq<Seq<char>>,
    flags: Option<FlagTypes>,
)
    requires
        parts.len() == names.len(),
        parts.len() > 0,
        forall|i: int|
            0 <= i < parts.len() ==> !(#[trigger] parts[i]).contains(',') && text::trim(parts[i])
                == names[i],
        forall|i: int| 0 <= i < names.len() ==> tool_names().contains(#[trigger] names[i]),
    ensures
        asked_by(seq!["--tools"@, text::join(parts, seq![','])] + rest, flags) == (ArgsView {
            tools: unless_later(asked_by(rest, flags).tools, names),
            ..asked_by(rest, flags)
        }),
{
    names_differ();
    let value = text::join(parts, seq![',']);
    text::split_undoes_join(parts, ',');
    assert(csv_entries(value) =~= names);
    tools_are_kept(names);
    setting_is_read("--tools"@, Setting::Tools, value, rest, flags);
    asked_with_value(Setting::Tools, value, items_from(rest, flags, 0));
}

/// Each built-in tool is kept, alone or among others.
pub proof fn each_tool_is_read(names: Seq<Seq<char>>, flags: Option<FlagTypes>)
    requires
        names.len() > 0,
        forall|i: int| 0 <= i < names.len() ==> tool_names().contains(#[trigger] names[i]),
    ensures
        asked_by(seq!["--tools"@, text::join(names, seq![','])], flags).tools == Some(names),
{
    assert forall|i: int| 0 <= i < names.len() implies !(#[trigger] names[i]).contains(',')
        && text::trim(names[i]) == names[i] by {
        tools_by_name(names[i]);
    }
    let none = Seq::<Seq<char>>::empty();
    let value = text::join(names, seq![',']);
    tools_are_read(names, names, none, flags);
    assert(seq!["--tools"@, value] + none =~= seq!["--tools"@, value]);
    reveal(values_of);
}

/// A name that is no built-in tool is dropped, and the others stay.
pub proof fn other_tools_are_dropped(before: Seq<Seq<char>>, name: Seq<char>, behind: Seq<Seq<char>>)
    requires
        !tool_names().contains(name),
    ensures
        known_tools(before + seq![name] + behind) == known_tools(before + behind),
{
    known_tools_in_two(before + seq![name], behind);
    known_tools_in_two(before, seq![name]);
    known_tools_in_two(before, behind);
    tools_by_name(name);
    let none = Seq::<Seq<char>>::empty();
    assert(seq![name].drop_last() =~= none);
    assert(known_tools(none) =~= none);
    assert(known_tools(seq![name]) =~= none);
    assert(known_tools(before) + none =~= known_tools(before));
}

/// The patterns of models come back whole and in order, without the white space around them; an empty
/// one stays.
pub proof fn model_patterns_are_read(
    parts: Seq<Seq<char>>,
    rest: Seq<Seq<char>>,
    flags: Option<FlagTypes>,
)
    requires
        parts.len() > 0,
        forall|i: int| 0 <= i < parts.len() ==> !(#[trigger] parts[i]).contains(','),
    ensures
        asked_by(seq!["--models"@, text::join(parts, seq![','])] + rest, flags) == (ArgsView {
            models: unless_later(
                asked_by(rest, flags).models,
                Seq::new(parts.len(), |i: int| text::trim(parts[i])),
            ),
            ..asked_by(rest, flags)
        }),
{
    names_differ();
    let value = text::join(parts, seq![',']);
    text::split_undoes_join(parts, ',');
    assert(csv_entries(value) =~= Seq::new(parts.len(), |i: int| text::trim(parts[i])));
    setting_is_read("--models"@, Setting::Models, value, rest, flags);
    asked_with_value(Setting::Models, value, items_from(rest, flags, 0));
}

/// Each switch turns its own field on, under each of its names, and changes nothing else.
pub proof fn switches_are_read(rest: Seq<Seq<char>>, flags: Option<FlagTypes>)
    ensures
        asked_by(seq!["--help"@] + rest, flags) == (ArgsView { help: true, ..asked_by(rest, flags) }),
        asked_by(seq!["-h"@] + rest, flags) == (ArgsView { help: true, ..asked_by(rest, flags) }),
        asked_by(seq!["--version"@] + rest, flags) == (ArgsView { version: true, ..asked_by(rest, flags) }),
        asked_by(seq!["-v"@] + rest, flags) == (ArgsView { version: true, ..asked_by(rest, flags) }),
        asked_by(seq!["--continue"@] + rest, flags) == (ArgsView { continue_session: true, ..asked_by(rest, flags) }),
        asked_by(seq!["-c"@] + rest, flags) == (ArgsView { continue_session: true, ..asked_by(rest, flags) }),
        asked_by(seq!["--resume"@] + rest, flags) == (ArgsView { resume: true, ..asked_by(rest, flags) }),
        asked_by(seq!["-r"@] + rest, flags) == (ArgsView { resume: true, ..asked_by(rest, flags) }),
        asked_by(seq!["--no-session"@] + rest, flags) == (ArgsView { no_session: true, ..asked_by(rest, flags) }),
        asked_by(seq!["--no-tools"@] + rest, flags) == (ArgsView { no_tools: true, ..asked_by(rest, flags) }),
        asked_by(seq!["--print"@] + rest, flags) == (ArgsView { print: true, ..asked_by(rest, flags) }),
        asked_by(seq!["-p"@] + rest, flags) == (ArgsView { print: true, ..asked_by(rest, flags) }),
        asked_by(seq!["--no-extensions"@] + rest, flags) == (ArgsView { no_extensions: true, ..asked_by(rest, flags) }),
        asked_by(seq!["-ne"@] + rest, flags) == (ArgsView { no_extensions: true, ..asked_by(rest, flags) }),
        asked_by(seq!["--no-skills"@] + rest, flags) == (ArgsView { no_skills: true, ..asked_by(rest, flags) }),
        asked_by(seq!["-ns"@] + rest, flags) == (ArgsView { no_skills: true, ..asked_by(rest, flags) }),
        asked_by(seq!["--no-prompt-templates"@] + rest, flags) == (ArgsView { no_prompt_templates: true, ..asked_by(rest, flags) }),
        asked_by(seq!["-np"@] + rest, flags) == (ArgsView { no_prompt_templates: true, ..asked_by(rest, flags) }),
        asked_by(seq!["--no-themes"@] + rest, flags) == (ArgsView { no_themes: true, ..asked_by(rest, flags) }),
        asked_by(seq!["--verbose"@] + rest, flags) == (ArgsView { verbose: true, ..asked_by(rest, flags) }),
{
    names_differ();
    let items = items_from(rest, flags, 0);
    switch_is_read("--help"@, Switch::Help, rest, flags);
    asked_with_switch(Switch::Help, items);
    switch_is_read("-h"@, Switch::Help, rest, flags);
    switch_is_read("--version"@, Switch::Version, rest, flags);
    asked_with_switch(Switch::Version, items);
    switch_is_read("-v"@, Switch::Version, rest, flags);
    switch_is_read("--continue"@, Switch::Continue, rest, flags);
    asked_with_switch(Switch::Continue, items);
    switch_is_read("-c"@, Switch::Continue, rest, flags);
    switch_is_read("--resume"@, Switch::Resume, rest, flags);
    asked_with_switch(Switch::Resume, items);
    switch_is_read("-r"@, Switch::Resume, rest, flags);
    switch_is_read("--no-session"@, Switch::NoSession, rest, flags);
    asked_with_switch(Switch::NoSession, items);
    switch_is_read("--no-tools"@, Switch::NoTools, rest, flags);
    asked_with_switch(Switch::NoTools, items);
    switch_is_read("--print"@, Switch::Print, rest, flags);
    asked_with_switch(Switch::Print, items);
    switch_is_read("-p"@, Switch::Print, rest, flags);
    switch_is_read("--no-extensions"@, Switch::NoExtensions, rest, flags);
    asked_with_switch(Switch::NoExtensions, items);
    switch_is_read("-ne"@, Switch::NoExtensions, rest, flags);
    switch_is_read("--no-skills"@, Switch::NoSkills, rest, flags);
    asked_with_switch(Switch::NoSkills, items);
    switch_is_read("-ns"@, Switch::NoSkills, rest, flags);
    switch_is_read("--no-prompt-templates"@, Switch::NoPromptTemplates, rest, flags);
    asked_with_switch(Switch::NoPromptTemplates, items);
    switch_is_read("-np"@, Switch::NoPromptTemplates, rest, flags);
    switch_is_read("--no-themes"@, Switch::NoThemes, rest, flags);
    asked_with_switch(Switch::NoThemes, items);
    switch_is_read("--verbose"@, Switch::Verbose, rest, flags);
    asked_with_switch(Switch::Verbose, items);
}

/// A word that starts neither with a dash nor with an at sign is a message, before the messages
/// behind it.
pub proof fn messages_are_read(word: Seq<char>, rest: Seq<Seq<char>>, flags: Option<FlagTypes>)
    requires
        word.len() > 0 ==> word[0] != '-' && word[0] != '@',
    ensures
        asked_by(seq![word] + rest, flags) == (ArgsView {
            messages: seq![word] + asked_by(rest, flags).messages,
            ..asked_by(rest, flags)
        }),
{
    names_differ();
    reveal_strlit("--");
    let all = seq![word] + rest;
    assert(all[0] == word);
    assert(!text::has_prefix(word, "--"@)) by {
        if text::has_prefix(word, "--"@) {
            assert("--"@[0] == '-');
            assert(word[0] == "--"@[0]);
        }
    }
    one_argument(word, rest, flags);
    asked_with_other(ItemView::Message(word), items_from(rest, flags, 0));
}

/// A path behind an at sign is a file.
pub proof fn files_are_read(path: Seq<char>, rest: Seq<Seq<char>>, flags: Option<FlagTypes>)
    requires
        path.len() > 0 ==> path[0] != '@',
    ensures
        asked_by(seq![seq!['@'] + path] + rest, flags) == (ArgsView {
            file_args: seq![path] + asked_by(rest, flags).file_args,
            ..asked_by(rest, flags)
        }),
{
    names_differ();
    let word = seq!['@'] + path;
    assert(word[0] == '@');
    let all = seq![word] + rest;
    assert(all[0] == word);
    assert(word.skip(1) =~= path);
    reveal_with_fuel(text::trim_start_char, 2);
    one_argument(word, rest, flags);
    asked_with_other(ItemView::File(path), items_from(rest, flags, 0));
}

/// A listing takes the next word as its search, unless that is a flag or a file.
pub proof fn listings_are_read(word: Seq<char>, rest: Seq<Seq<char>>, flags: Option<FlagTypes>)
    ensures
        is_search(word) ==> asked_by(seq!["--list-models"@, word] + rest, flags) == (ArgsView {
            list_models: unless_later(asked_by(rest, flags).list_models, Some(word)),
            ..asked_by(rest, flags)
        }),
        is_search(word) ==> asked_by(seq!["--list-known-models"@, word] + rest, flags) == (ArgsView {
            list_known_models: unless_later(asked_by(rest, flags).list_known_models, Some(word)),
            ..asked_by(rest, flags)
        }),
        rest.len() == 0 || rest[0].len() > 0 && (rest[0][0] == '-' || rest[0][0] == '@') ==> asked_by(
            seq!["--list-models"@] + rest,
            flags,
        ) == (ArgsView {
            list_models: unless_later(asked_by(rest, flags).list_models, None),
            ..asked_by(rest, flags)
        }),
        rest.len() == 0 || rest[0].len() > 0 && (rest[0][0] == '-' || rest[0][0] == '@') ==> asked_by(
            seq!["--list-known-models"@] + rest,
            flags,
        ) == (ArgsView {
            list_known_models: unless_later(asked_by(rest, flags).list_known_models, None),
            ..asked_by(rest, flags)
        }),
{
    names_differ();
    let items = items_from(rest, flags, 0);
    listing_is_read("--list-models"@, Listing::Models, word, rest, flags);
    listing_is_read("--list-known-models"@, Listing::KnownModels, word, rest, flags);
    asked_with_other(ItemView::Listing(Listing::Models, Some(word)), items);
    asked_with_other(ItemView::Listing(Listing::KnownModels, Some(word)), items);
    asked_with_other(ItemView::Listing(Listing::Models, None), items);
    asked_with_other(ItemView::Listing(Listing::KnownModels, None), items);
}

proof fn listing_is_read(
    name: Seq<char>,
    listing: Listing,
    word: Seq<char>,
    rest: Seq<Seq<char>>,
    flags: Option<FlagTypes>,
)
    requires
        switch_named(name) is None,
        setting_named(name) is None,
        listing_named(name) == Some(listing),
    ensures
        is_search(word) ==> asked_by(seq![name, word] + rest, flags) == asked(
            seq![ItemView::Listing(listing, Some(word))] + items_from(rest, flags, 0),
        ),
        rest.len() == 0 || !is_search(rest[0]) ==> asked_by(seq![name] + rest, flags) == asked(
            seq![ItemView::Listing(listing, None)] + items_from(rest, flags, 0),
        ),
{
    let two = seq![name, word] + rest;
    assert(two[0] == name && two[1] == word);
    if is_search(word) {
        two_arguments(name, word, rest, flags);
    }
    let one = seq![name] + rest;
    assert(one[0] == name);
    if rest.len() > 0 {
        assert(one[1] == rest[0]);
    }
    if rest.len() == 0 || !is_search(rest[0]) {
        one_argument(name, rest, flags);
    }
}

/// A long flag that is neither known nor registered is passed over, and so is a short one.
pub proof fn unknown_flags_are_passed_over(
    word: Seq<char>,
    rest: Seq<Seq<char>>,
    flags: Option<FlagTypes>,
)
    requires
        word.len() > 0,
        word[0] == '-',
        switch_named(word) is None,
        setting_named(word) is None,
        listing_named(word) is None,
        flags is Some && text::has_prefix(word, "--"@) ==> !flags->0.dom().contains(
            text::trim_start_dashes(word),
        ),
    ensures
        asked_by(seq![word] + rest, flags) == asked_by(rest, flags),
{
    let all = seq![word] + rest;
    assert(all[0] == word);
    one_argument(word, rest, flags);
    asked_with_other(ItemView::Ignored, items_from(rest, flags, 0));
}

/// A flag that an extension registered is read with its value, unless it is given again later.
pub proof fn registered_flags_are_read(
    name: Seq<char>,
    value: Seq<char>,
    rest: Seq<Seq<char>>,
    flags: FlagTypes,
)
    requires
        flags.dom().contains(name),
        name.len() > 1 ==> name[0] != '-' || name[1] != '-',
        switch_named("--"@ + name) is None,
        setting_named("--"@ + name) is None,
        listing_named("--"@ + name) is None,
    ensures
        flags[name] == ExtensionFlagType::Boolean ==> asked_by(
            seq!["--"@ + name] + rest,
            Some(flags),
        ) == (ArgsView {
            unknown_flags: map![name => FlagValueView::Boolean(true)].union_prefer_right(
                asked_by(rest, Some(flags)).unknown_flags,
            ),
            ..asked_by(rest, Some(flags))
        }),
        flags[name] == ExtensionFlagType::String ==> asked_by(
            seq!["--"@ + name, value] + rest,
            Some(flags),
        ) == (ArgsView {
            unknown_flags: map![name => FlagValueView::String(value)].union_prefer_right(
                asked_by(rest, Some(flags)).unknown_flags,
            ),
            ..asked_by(rest, Some(flags))
        }),
{
    reveal_strlit("--");
    let word = "--"@ + name;
    assert("--"@[0] == '-' && "--"@[1] == '-' && "--"@.len() == 2);
    assert(word[0] == '-' && word[1] == '-');
    assert(word.take(2) =~= "--"@);
    assert(text::has_prefix(word, "--"@));
    assert(word.skip(2) =~= name);
    reveal_with_fuel(text::trim_start_dashes, 2);
    assert(text::trim_start_dashes(word) == name);
    let items = items_from(rest, Some(flags), 0);
    if flags[name] == ExtensionFlagType::Boolean {
        let all = seq![word] + rest;
        assert(all[0] == word);
        one_argument(word, rest, Some(flags));
        asked_with_other(ItemView::Extension(name, FlagValueView::Boolean(true)), items);
    } else {
        let all = seq![word, value] + rest;
        assert(all[0] == word && all[1] == value);
        two_arguments(word, value, rest, Some(flags));
        asked_with_other(ItemView::Extension(name, FlagValueView::String(value)), items);
    }
}

/// Without arguments nothing is asked for.
pub proof fn nothing_is_read_from_nothing(flags: Option<FlagTypes>)
    ensures
        ({
            let none = asked_by(Seq::empty(), flags);
            &&& none.messages.len() == 0 && none.file_args.len() == 0
            &&& none.extensions.len() == 0 && none.skills.len() == 0
            &&& none.prompt_templates.len() == 0 && none.themes.len() == 0
            &&& none.provider is None && none.model is None && none.api_key is None
            &&& none.system_prompt is None && none.append_system_prompt is None
            &&& none.session is None && none.session_dir is None && none.export is None
            &&& none.thinking is None && none.mode is None
            &&& none.models is None && none.tools is None
            &&& none.list_models is None && none.list_known_models is None
            &&& none.unknown_flags == Map::<Seq<char>, FlagValueView>::empty()
            &&& !none.help && !none.version && !none.continue_session && !none.resume
            &&& !none.no_session && !none.no_tools && !none.no_extensions && !none.print
            &&& !none.no_skills && !none.no_prompt_templates && !none.no_themes && !none.verbose
        }),
{
    reveal(values_of);
    reveal(last_listing);
    reveal(messages_of);
    reveal(files_of);
    reveal(extension_values);
    reveal(switched);
    reveal(last_thinking);
    reveal(last_mode);
}

} // verus!
