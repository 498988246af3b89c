//! The settings that can be changed from within the interface.
use vstd::prelude::*;
use crate::actions::DoubleEscapeAction;
use crate::chrome;
use crate::json;
use crate::json::{navigate_setting, Json};
use crate::overlay;
use crate::overlay::{ItemView, SelectItem};
use crate::session::{QueueMode, SessionState};
use crate::submit;
use crate::submit::{bool_value, flag_at, flag_in, queue_mode_value, text_at};
use crate::text;
use crate::text::{before, cat2, cat3, chars_of, copy_text, decimal_text, same};

verus! {

broadcast use crate::text::group_texts;

/// A setting.
#[derive(Clone, Copy, Debug, PartialEq, Eq, Structural)]
pub enum SettingKey {
    AutoCompact,
    ShowImages,
    AutoResizeImages,
    BlockImages,
    SkillCommands,
    ShowHardwareCursor,
    EditorPadding,
    AutocompleteMaxVisible,
    ClearOnShrink,
    SteeringMode,
    FollowUpMode,
    Transport,
    HideThinking,
    CollapseChangelog,
    QuietStartup,
    DoubleEscapeAction,
    ThinkingLevel,
    Theme,
}

/// The identifier of a setting.
pub open spec fn key_id(key: SettingKey) -> Seq<char> {
    match key {
        SettingKey::AutoCompact => "setting:auto_compact"@,
        SettingKey::ShowImages => "setting:show_images"@,
        SettingKey::AutoResizeImages => "setting:auto_resize_images"@,
        SettingKey::BlockImages => "setting:block_images"@,
        SettingKey::SkillCommands => "setting:skill_commands"@,
        SettingKey::ShowHardwareCursor => "setting:show_hardware_cursor"@,
        SettingKey::EditorPadding => "setting:editor_padding"@,
        SettingKey::AutocompleteMaxVisible => "setting:autocomplete_max_visible"@,
        SettingKey::ClearOnShrink => "setting:clear_on_shrink"@,
        SettingKey::SteeringMode => "setting:steering_mode"@,
        SettingKey::FollowUpMode => "setting:follow_up_mode"@,
        SettingKey::Transport => "setting:transport"@,
        SettingKey::HideThinking => "setting:hide_thinking"@,
        SettingKey::CollapseChangelog => "setting:collapse_changelog"@,
        SettingKey::QuietStartup => "setting:quiet_startup"@,
        SettingKey::DoubleEscapeAction => "setting:double_escape_action"@,
        SettingKey::ThinkingLevel => "setting:thinking_level"@,
        SettingKey::Theme => "setting:theme"@,
    }
}

/// The identifier of a setting.
pub fn setting_key_value(key: SettingKey) -> (r: &'static str)
    ensures
        r@ == key_id(key),
{
    match key {
        SettingKey::AutoCompact => "setting:auto_compact",
        SettingKey::ShowImages => "setting:show_images",
        SettingKey::AutoResizeImages => "setting:auto_resize_images",
        SettingKey::BlockImages => "setting:block_images",
        SettingKey::SkillCommands => "setting:skill_commands",
        SettingKey::ShowHardwareCursor => "setting:show_hardware_cursor",
        SettingKey::EditorPadding => "setting:editor_padding",
        SettingKey::AutocompleteMaxVisible => "setting:autocomplete_max_visible",
        SettingKey::ClearOnShrink => "setting:clear_on_shrink",
        SettingKey::SteeringMode => "setting:steering_mode",
        SettingKey::FollowUpMode => "setting:follow_up_mode",
        SettingKey::Transport => "setting:transport",
        SettingKey::HideThinking => "setting:hide_thinking",
        SettingKey::CollapseChangelog => "setting:collapse_changelog",
        SettingKey::QuietStartup => "setting:quiet_startup",
        SettingKey::DoubleEscapeAction => "setting:double_escape_action",
        SettingKey::ThinkingLevel => "setting:thinking_level",
        SettingKey::Theme => "setting:theme",
    }
}

/// All settings.
pub open spec fn all_keys() -> Seq<SettingKey> {
    seq![
        SettingKey::AutoCompact,
        SettingKey::ShowImages,
        SettingKey::AutoResizeImages,
        SettingKey::BlockImages,
        SettingKey::SkillCommands,
        SettingKey::ShowHardwareCursor,
        SettingKey::EditorPadding,
        SettingKey::AutocompleteMaxVisible,
        SettingKey::ClearOnShrink,
        SettingKey::SteeringMode,
        SettingKey::FollowUpMode,
        SettingKey::Transport,
        SettingKey::HideThinking,
        SettingKey::CollapseChangelog,
        SettingKey::QuietStartup,
        SettingKey::DoubleEscapeAction,
        SettingKey::ThinkingLevel,
        SettingKey::Theme,
    ]
}

/// The first of some settings with an identifier.
pub open spec fn key_among(keys: Seq<SettingKey>, id: Seq<char>) -> Option<SettingKey>
    decreases keys.len(),
{
    if keys.len() == 0 {
        None
    } else if key_id(keys[0]) == id {
        Some(keys[0])
    } else {
        key_among(keys.skip(1), id)
    }
}

/// The setting with an identifier.
pub open spec fn key_with_id(id: Seq<char>) -> Option<SettingKey> {
    key_among(all_keys(), id)
}

/// The setting with an identifier.
pub fn setting_with_id(id: &str) -> (r: Option<SettingKey>)
    ensures
        r == key_with_id(id@),
{
    let keys: [SettingKey; 18] = [
        SettingKey::AutoCompact,
        SettingKey::ShowImages,
        SettingKey::AutoResizeImages,
        SettingKey::BlockImages,
        SettingKey::SkillCommands,
        SettingKey::ShowHardwareCursor,
        SettingKey::EditorPadding,
        SettingKey::AutocompleteMaxVisible,
        SettingKey::ClearOnShrink,
        SettingKey::SteeringMode,
        SettingKey::FollowUpMode,
        SettingKey::Transport,
        SettingKey::HideThinking,
        SettingKey::CollapseChangelog,
        SettingKey::QuietStartup,
        SettingKey::DoubleEscapeAction,
        SettingKey::ThinkingLevel,
        SettingKey::Theme,
    ];
    let list = keys.as_slice();
    assert(list@ =~= all_keys());
    let mut i: usize = 0;
    assert(list@.skip(0) =~= list@);
    while i < list.len()
        invariant
            0 <= i <= list.len(),
            list@ == all_keys(),
            key_among(list@.skip(i as int), id@) == key_with_id(id@),
        decreases list.len() - i,
    {
        assert(list@.skip(i as int)[0] == list@[i as int]);
        assert(list@.skip(i as int).skip(1) =~= list@.skip(i + 1));
        if same(setting_key_value(list[i]), id) {
            return Some(list[i]);
        }
        i += 1;
    }
    None
}

/// What tells the identifiers apart: how long they are, and their first and second letter.
spec fn signature(s: Seq<char>) -> (nat, char, char) {
    (s.len(), s[8], s[9])
}

proof fn key_signature(key: SettingKey)
    ensures
        signature(key_id(key)) == (match key {
            SettingKey::AutoCompact => (20nat, 'a', 'u'),
            SettingKey::ShowImages => (19nat, 's', 'h'),
            SettingKey::AutoResizeImages => (26nat, 'a', 'u'),
            SettingKey::BlockImages => (20nat, 'b', 'l'),
            SettingKey::SkillCommands => (22nat, 's', 'k'),
            SettingKey::ShowHardwareCursor => (28nat, 's', 'h'),
            SettingKey::EditorPadding => (22nat, 'e', 'd'),
            SettingKey::AutocompleteMaxVisible => (32nat, 'a', 'u'),
            SettingKey::ClearOnShrink => (23nat, 'c', 'l'),
            SettingKey::SteeringMode => (21nat, 's', 't'),
            SettingKey::FollowUpMode => (22nat, 'f', 'o'),
            SettingKey::Transport => (17nat, 't', 'r'),
            SettingKey::HideThinking => (21nat, 'h', 'i'),
            SettingKey::CollapseChangelog => (26nat, 'c', 'o'),
            SettingKey::QuietStartup => (21nat, 'q', 'u'),
            SettingKey::DoubleEscapeAction => (28nat, 'd', 'o'),
            SettingKey::ThinkingLevel => (22nat, 't', 'h'),
            SettingKey::Theme => (13nat, 't', 'h'),
        }),
{
    reveal_strlit("setting:auto_compact");
    reveal_strlit("setting:show_images");
    reveal_strlit("setting:auto_resize_images");
    reveal_strlit("setting:block_images");
    reveal_strlit("setting:skill_commands");
    reveal_strlit("setting:show_hardware_cursor");
    reveal_strlit("setting:editor_padding");
    reveal_strlit("setting:autocomplete_max_visible");
    reveal_strlit("setting:clear_on_shrink");
    reveal_strlit("setting:steering_mode");
    reveal_strlit("setting:follow_up_mode");
    reveal_strlit("setting:transport");
    reveal_strlit("setting:hide_thinking");
    reveal_strlit("setting:collapse_changelog");
    reveal_strlit("setting:quiet_startup");
    reveal_strlit("setting:double_escape_action");
    reveal_strlit("setting:thinking_level");
    reveal_strlit("setting:theme");
}

proof fn key_found(keys: Seq<SettingKey>, key: SettingKey)
    requires
        keys.contains(key),
    ensures
        key_among(keys, key_id(key)) == Some(key),
    decreases keys.len(),
{
    key_signature(keys[0]);
    key_signature(key);
    if keys[0] != key {
        let k = choose|k: int| 0 <= k < keys.len() && keys[k] == key;
        assert(keys.skip(1)[k - 1] == key);
        key_found(keys.skip(1), key);
    }
}

/// The identifier of each setting is understood as that setting.
pub proof fn setting_ids_read_back(key: SettingKey)
    ensures
        key_with_id(key_id(key)) == Some(key),
{
    let keys = all_keys();
    assert(keys[0] == SettingKey::AutoCompact);
    assert(keys[1] == SettingKey::ShowImages);
    assert(keys[2] == SettingKey::AutoResizeImages);
    assert(keys[3] == SettingKey::BlockImages);
    assert(keys[4] == SettingKey::SkillCommands);
    assert(keys[5] == SettingKey::ShowHardwareCursor);
    assert(keys[6] == SettingKey::EditorPadding);
    assert(keys[7] == SettingKey::AutocompleteMaxVisible);
    assert(keys[8] == SettingKey::ClearOnShrink);
    assert(keys[9] == SettingKey::SteeringMode);
    assert(keys[10] == SettingKey::FollowUpMode);
    assert(keys[11] == SettingKey::Transport);
    assert(keys[12] == SettingKey::HideThinking);
    assert(keys[13] == SettingKey::CollapseChangelog);
    assert(keys[14] == SettingKey::QuietStartup);
    assert(keys[15] == SettingKey::DoubleEscapeAction);
    assert(keys[16] == SettingKey::ThinkingLevel);
    assert(keys[17] == SettingKey::Theme);
    key_found(keys, key);
}

/// A choice that is opened for a setting.
#[derive(Clone, Debug, PartialEq, Eq)]
pub struct SettingSubmenu {
    pub title: String,
    pub description: String,
    pub options: Vec<SelectItem>,
    pub current_value: String,
}

/// A choice that is opened for a setting, as a mathematical value.
pub struct SubmenuView {
    pub title: Seq<char>,
    pub description: Seq<char>,
    pub options: Seq<ItemView>,
    pub current_value: Seq<char>,
}

/// A setting as it is listed.
#[derive(Clone, Debug, PartialEq, Eq)]
pub struct SettingItem {
    pub id: String,
    pub label: String,
    pub description: String,
    pub current_value: String,
    pub values: Vec<String>,
    pub submenu: Option<SettingSubmenu>,
}

/// A setting as it is listed, as a mathematical value.
pub struct SettingView {
    pub id: Seq<char>,
    pub label: Seq<char>,
    pub description: Seq<char>,
    pub current_value: Seq<char>,
    pub values: Seq<Seq<char>>,
    pub submenu: Option<SubmenuView>,
}

impl View for SettingItem {
    type V = SettingView;

    open spec fn view(&self) -> SettingView {
        SettingView {
            id: self.id@,
            label: self.label@,
            description: self.description@,
            current_value: self.current_value@,
            values: text::texts(self.values@),
            submenu: match self.submenu {
                Some(menu) => Some(
                    SubmenuView {
                        title: menu.title@,
                        description: menu.description@,
                        options: overlay::items(menu.options@),
                        current_value: menu.current_value@,
                    },
                ),
                None => None,
            },
        }
    }
}

/// Settings as they are listed, as mathematical values.
pub open spec fn setting_views(list: Seq<SettingItem>) -> Seq<SettingView> {
    Seq::new(list.len(), |i: int| list[i]@)
}

/// A setting with a few values.
pub open spec fn plain_setting(
    key: SettingKey,
    label: Seq<char>,
    description: Seq<char>,
    current_value: Seq<char>,
    values: Seq<Seq<char>>,
) -> SettingView {
    SettingView { id: key_id(key), label, description, current_value, values, submenu: None }
}

/// A setting that is on or off.
pub open spec fn switch_setting(key: SettingKey, label: Seq<char>, description: Seq<char>, on: bool) -> SettingView {
    plain_setting(key, label, description, submit::bool_name(on), seq!["true"@, "false"@])
}

/// What the interface knows when the settings are listed.
pub struct SettingsContext {
    /// The settings that are written down.
    pub settings: Json,
    /// Whether the terminal shows images.
    pub inline_images: bool,
    pub show_images: bool,
    pub hide_thinking: bool,
    pub double_escape_action: DoubleEscapeAction,
    /// Whether the model thinks, and whether it can think hardest.
    pub supports_xhigh: bool,
    /// Whether the environment asks for the cursor of the terminal.
    pub hardware_cursor: bool,
    /// The names of the themes that were found.
    pub theme_names: Vec<String>,
}

/// A whole number that a value is.
pub open spec fn whole_in(value: Option<Json>) -> Option<int> {
    match value {
        Some(Json::Unsigned(n)) => if n <= i64::MAX {
            Some(n as int)
        } else {
            None
        },
        Some(Json::Negative(n)) => Some(n as int),
        _ => None,
    }
}

/// A number kept between two others.
pub open spec fn clamped(n: int, low: int, high: int) -> int {
    if n < low {
        low
    } else if n > high {
        high
    } else {
        n
    }
}

/// The number under a name kept between two others, or another one where there is none.
pub open spec fn number_setting(settings: Json, name: Seq<char>, default: int, low: int, high: int) -> int {
    clamped(
        match whole_in(json::at_path(settings, seq![name])) {
            Some(n) => n,
            None => default,
        },
        low,
        high,
    )
}

fn clamp_number(n: i64, low: i64, high: i64) -> (r: i64)
    ensures
        r == clamped(n as int, low as int, high as int),
{
    if n < low {
        low
    } else if n > high {
        high
    } else {
        n
    }
}

fn number_at(settings: &Json, name: &str, default: i64, low: i64, high: i64) -> (r: i64)
    ensures
        r == number_setting(*settings, name@, default as int, low as int, high as int),
{
    let path: [&str; 1] = [name];
    assert(json::slices(path@) =~= seq![name@]);
    let n: i64 = match navigate_setting(settings, path.as_slice()) {
        Some(Json::Unsigned(n)) => if *n <= i64::MAX as u64 {
            *n as i64
        } else {
            default
        },
        Some(Json::Negative(n)) => *n,
        _ => default,
    };
    clamp_number(n, low, high)
}

/// The thinking levels of a model.
pub open spec fn thinking_levels(reasoning: bool, xhigh: bool) -> Seq<Seq<char>> {
    if reasoning {
        seq!["off"@, "minimal"@, "low"@, "medium"@, "high"@] + chrome::only_if(xhigh, "xhigh"@)
    } else {
        seq!["off"@]
    }
}

/// What a thinking level means.
pub open spec fn level_meaning(level: Seq<char>) -> Seq<char> {
    if level == "off"@ {
        "No reasoning"@
    } else if level == "minimal"@ {
        "Very brief reasoning (~1k tokens)"@
    } else if level == "low"@ {
        "Light reasoning (~2k tokens)"@
    } else if level == "medium"@ {
        "Moderate reasoning (~8k tokens)"@
    } else if level == "high"@ {
        "Deep reasoning (~16k tokens)"@
    } else if level == "xhigh"@ {
        "Maximum reasoning (~32k tokens)"@
    } else {
        ""@
    }
}

/// The thinking levels as items.
pub open spec fn level_items(levels: Seq<Seq<char>>) -> Seq<ItemView> {
    Seq::new(
        levels.len(),
        |i: int|
            ItemView {
                value: levels[i],
                label: levels[i],
                description: Some(level_meaning(levels[i])),
            },
    )
}

/// Names as items.
pub open spec fn name_items(names: Seq<Seq<char>>) -> Seq<ItemView> {
    Seq::new(names.len(), |i: int| ItemView { value: names[i], label: names[i], description: None })
}

/// A text put in its place among texts that are in order, unless it stands there already.
pub open spec fn placed(sorted: Seq<Seq<char>>, t: Seq<char>) -> Seq<Seq<char>>
    decreases sorted.len(),
{
    if sorted.len() == 0 || text::text_less(sorted.last(), t) {
        sorted.push(t)
    } else if sorted.last() == t {
        sorted
    } else {
        placed(sorted.drop_last(), t).push(sorted.last())
    }
}

/// Texts in order, each once.
pub open spec fn sorted_once(list: Seq<Seq<char>>) -> Seq<Seq<char>>
    decreases list.len(),
{
    if list.len() == 0 {
        Seq::empty()
    } else {
        placed(sorted_once(list.drop_last()), list.last())
    }
}

/// Whether each text comes before the next.
pub open spec fn strictly_ordered(list: Seq<Seq<char>>) -> bool {
    forall|i: int, j: int|
        0 <= i < j < list.len() ==> text::text_less(#[trigger] list[i], #[trigger] list[j])
}

proof fn placed_contains(sorted: Seq<Seq<char>>, t: Seq<char>, x: Seq<char>)
    ensures
        placed(sorted, t).contains(x) == (sorted.contains(x) || x == t),
    decreases sorted.len(),
{
    let r = placed(sorted, t);
    if sorted.len() == 0 || text::text_less(sorted.last(), t) {
        assert(r[sorted.len() as int] == t);
        if sorted.contains(x) {
            let k = choose|k: int| 0 <= k < sorted.len() && sorted[k] == x;
            assert(r[k] == x);
        }
        if r.contains(x) && x != t {
            let k = choose|k: int| 0 <= k < r.len() && r[k] == x;
            assert(sorted[k] == x);
        }
    } else if sorted.last() == t {
        assert(sorted[sorted.len() - 1] == t);
    } else {
        let shorter = sorted.drop_last();
        let p = placed(shorter, t);
        placed_contains(shorter, t, x);
        if sorted.contains(x) {
            let k = choose|k: int| 0 <= k < sorted.len() && sorted[k] == x;
            if k < shorter.len() {
                assert(shorter[k] == x);
            } else {
                assert(r[p.len() as int] == x);
            }
        }
        if p.contains(x) {
            let k = choose|k: int| 0 <= k < p.len() && p[k] == x;
            assert(r[k] == x);
        }
        if r.contains(x) {
            let k = choose|k: int| 0 <= k < r.len() && r[k] == x;
            if k < p.len() {
                assert(p[k] == x);
            } else {
                assert(sorted[sorted.len() - 1] == x);
            }
        }
        if shorter.contains(x) {
            let k = choose|k: int| 0 <= k < shorter.len() && shorter[k] == x;
            assert(sorted[k] == x);
        }
    }
}

proof fn placed_keeps_order(sorted: Seq<Seq<char>>, t: Seq<char>)
    requires
        strictly_ordered(sorted),
    ensures
        strictly_ordered(placed(sorted, t)),
    decreases sorted.len(),
{
    let r = placed(sorted, t);
    if sorted.len() == 0 || text::text_less(sorted.last(), t) {
        assert forall|i: int, j: int| 0 <= i < j < r.len() implies text::text_less(
            #[trigger] r[i],
            #[trigger] r[j],
        ) by {
            if j == sorted.len() && i < sorted.len() - 1 {
                assert(text::text_less(sorted[i], sorted[sorted.len() - 1]));
                text::text_less_is_transitive(sorted[i], sorted.last(), t);
            }
        }
    } else if sorted.last() == t {
    } else {
        let last = sorted.last();
        let shorter = sorted.drop_last();
        assert(strictly_ordered(shorter)) by {
            assert forall|i: int, j: int| 0 <= i < j < shorter.len() implies text::text_less(
                #[trigger] shorter[i],
                #[trigger] shorter[j],
            ) by {
                assert(shorter[i] == sorted[i] && shorter[j] == sorted[j]);
            }
        }
        placed_keeps_order(shorter, t);
        text::text_less_is_total(last, t);
        let p = placed(shorter, t);
        assert forall|i: int| 0 <= i < p.len() implies text::text_less(#[trigger] p[i], last) by {
            assert(p.contains(p[i]));
            placed_contains(shorter, t, p[i]);
            if p[i] != t {
                let k = choose|k: int| 0 <= k < shorter.len() && shorter[k] == p[i];
                assert(text::text_less(sorted[k], sorted[sorted.len() - 1]));
            }
        }
    }
}

/// Putting texts in order leaves none out, adds none and keeps each once.
pub proof fn sorting_once(list: Seq<Seq<char>>)
    ensures
        strictly_ordered(sorted_once(list)),
        forall|x: Seq<char>| sorted_once(list).contains(x) <==> list.contains(x),
    decreases list.len(),
{
    if list.len() > 0 {
        let shorter = list.drop_last();
        sorting_once(shorter);
        placed_keeps_order(sorted_once(shorter), list.last());
        assert forall|x: Seq<char>| sorted_once(list).contains(x) <==> list.contains(x) by {
            placed_contains(sorted_once(shorter), list.last(), x);
            assert(sorted_once(shorter).contains(x) <==> shorter.contains(x));
            if list.contains(x) {
                let k = choose|k: int| 0 <= k < list.len() && list[k] == x;
                if k < shorter.len() {
                    assert(shorter[k] == x);
                    assert(shorter.contains(x));
                }
            }
            if shorter.contains(x) {
                let k = choose|k: int| 0 <= k < shorter.len() && shorter[k] == x;
                assert(list[k] == x);
            }
            assert(list[list.len() - 1] == list.last());
        }
    }
}

proof fn placed_is_insert(sorted: Seq<Seq<char>>, t: Seq<char>, k: int)
    requires
        0 <= k <= sorted.len(),
        forall|j: int|
            k <= j < sorted.len() ==> !text::text_less(#[trigger] sorted[j], t) && sorted[j] != t,
        k == 0 || text::text_less(sorted[k - 1], t) || sorted[k - 1] == t,
    ensures
        placed(sorted, t) == (if k > 0 && !text::text_less(sorted[k - 1], t) {
            sorted
        } else {
            sorted.insert(k, t)
        }),
    decreases sorted.len(),
{
    if k == sorted.len() {
        assert(sorted.insert(k, t) =~= sorted.push(t));
        if k > 0 {
            text::text_less_is_total(sorted[k - 1], t);
        }
    } else {
        let shorter = sorted.drop_last();
        assert forall|j: int| k <= j < shorter.len() implies !text::text_less(
            #[trigger] shorter[j],
            t,
        ) && shorter[j] != t by {
            assert(shorter[j] == sorted[j]);
        }
        assert(!text::text_less(sorted[sorted.len() - 1], t));
        placed_is_insert(shorter, t, k);
        assert(sorted.insert(k, t) =~= shorter.insert(k, t).push(sorted.last()));
        assert(sorted =~= shorter.push(sorted.last()));
    }
}

/// Texts in order, each once.
pub fn sort_once(list: &[String]) -> (r: Vec<String>)
    ensures
        text::texts(r@) == sorted_once(text::texts(list@)),
{
    let ghost all = text::texts(list@);
    let mut out: Vec<String> = Vec::new();
    let mut i: usize = 0;
    assert(all.take(0) =~= Seq::<Seq<char>>::empty());
    while i < list.len()
        invariant
            0 <= i <= list.len(),
            all == text::texts(list@),
            text::texts(out@) == sorted_once(all.take(i as int)),
        decreases list.len() - i,
    {
        assert(all.take(i + 1).drop_last() =~= all.take(i as int));
        let t = list[i].as_str();
        let ghost sorted = text::texts(out@);
        let mut k: usize = out.len();
        while k > 0 && !before(out[k - 1].as_str(), t) && !same(out[k - 1].as_str(), t)
            invariant
                0 <= k <= out.len(),
                sorted == text::texts(out@),
                forall|j: int|
                    k <= j < out.len() ==> !text::text_less(#[trigger] sorted[j], t@) && sorted[j]
                        != t@,
            decreases k,
        {
            k -= 1;
        }
        let stands = k > 0 && same(out[k - 1].as_str(), t);
        proof {
            if k > 0 {
                text::text_less_is_total(sorted[k - 1], t@);
            }
            placed_is_insert(sorted, t@, k as int);
        }
        if !stands {
            out.insert(k, copy_text(t));
            assert(text::texts(out@) =~= sorted.insert(k as int, t@));
        }
        i += 1;
    }
    assert(all.take(i as int) =~= all);
    out
}

/// The names of the themes.
pub open spec fn themes(names: Seq<Seq<char>>) -> Seq<Seq<char>> {
    sorted_once(seq!["dark"@, "light"@] + names)
}

/// The text of a setting, or another one where there is none.
pub open spec fn text_setting(settings: Json, name: Seq<char>, default: Seq<char>) -> Seq<char> {
    match json::text_in(json::at_path(settings, seq![name])) {
        Some(s) => s,
        None => default,
    }
}

fn text_setting_or(settings: &Json, name: &str, default: &str) -> (r: String)
    ensures
        r@ == text_setting(*settings, name@, default@),
{
    match text_at(settings, name) {
        Some(s) => s,
        None => copy_text(default),
    }
}

/// The settings about images, the editor and the terminal.
pub open spec fn first_settings(state: SessionState, context: SettingsContext) -> Seq<SettingView> {
    let s = context.settings;
    seq![
        switch_setting(
            SettingKey::AutoCompact,
            "Auto-compact"@,
            "Automatically compact context when it gets too large"@,
            state.auto_compaction_enabled,
        ),
    ] + (if context.inline_images {
        seq![
            switch_setting(
                SettingKey::ShowImages,
                "Show images"@,
                "Render images inline in terminal"@,
                context.show_images,
            ),
        ]
    } else {
        Seq::empty()
    }) + seq![
        switch_setting(
            SettingKey::AutoResizeImages,
            "Auto-resize images"@,
            "Resize large images to 2000x2000 max for better model compatibility"@,
            submit::flag(s, seq!["images"@, "autoResize"@], true),
        ),
        switch_setting(
            SettingKey::BlockImages,
            "Block images"@,
            "Prevent images from being sent to LLM providers"@,
            submit::flag(s, seq!["images"@, "blockImages"@], false),
        ),
        switch_setting(
            SettingKey::SkillCommands,
            "Skill commands"@,
            "Register skills as /skill:name commands"@,
            submit::flag(s, seq!["enableSkillCommands"@], true),
        ),
        switch_setting(
            SettingKey::ShowHardwareCursor,
            "Show hardware cursor"@,
            "Show the terminal cursor while still positioning it for IME support"@,
            submit::flag(s, seq!["showHardwareCursor"@], context.hardware_cursor),
        ),
        plain_setting(
            SettingKey::EditorPadding,
            "Editor padding"@,
            "Horizontal padding for input editor (0-3)"@,
            text::decimal(number_setting(s, "editorPaddingX"@, 0, 0, 3) as nat),
            seq!["0"@, "1"@, "2"@, "3"@],
        ),
        plain_setting(
            SettingKey::AutocompleteMaxVisible,
            "Autocomplete max items"@,
            "Max visible items in autocomplete dropdown (3-20)"@,
            text::decimal(number_setting(s, "autocompleteMaxVisible"@, 5, 3, 20) as nat),
            seq!["3"@, "5"@, "7"@, "10"@, "15"@, "20"@],
        ),
        switch_setting(
            SettingKey::ClearOnShrink,
            "Clear on shrink"@,
            "Clear empty rows when content shrinks (may cause flicker)"@,
            submit::flag(s, seq!["terminal"@, "clearOnShrink"@], false),
        ),
    ]
}

/// The settings about messages and the transcript.
pub open spec fn middle_settings(state: SessionState, context: SettingsContext) -> Seq<SettingView> {
    let s = context.settings;
    let deliveries = seq!["one-at-a-time"@, "all"@];
    seq![
        plain_setting(
            SettingKey::SteeringMode,
            "Steering mode"@,
            "Enter while streaming queues steering messages. 'one-at-a-time': deliver one, wait for response. 'all': deliver all at once."@,
            submit::queue_mode_name(state.steering_mode),
            deliveries,
        ),
        plain_setting(
            SettingKey::FollowUpMode,
            "Follow-up mode"@,
            "Alt+Enter queues follow-up messages until agent stops. 'one-at-a-time': deliver one, wait for response. 'all': deliver all at once."@,
            submit::queue_mode_name(state.follow_up_mode),
            deliveries,
        ),
        plain_setting(
            SettingKey::Transport,
            "Transport"@,
            "Preferred transport for providers that support multiple transports"@,
            text_setting(s, "transport"@, "sse"@),
            seq!["sse"@, "websocket"@, "auto"@],
        ),
        switch_setting(
            SettingKey::HideThinking,
            "Hide thinking"@,
            "Hide thinking blocks in assistant responses"@,
            context.hide_thinking,
        ),
        switch_setting(
            SettingKey::CollapseChangelog,
            "Collapse changelog"@,
            "Show condensed changelog after updates"@,
            submit::flag(s, seq!["collapseChangelog"@], false),
        ),
        switch_setting(
            SettingKey::QuietStartup,
            "Quiet startup"@,
            "Disable verbose printing at startup"@,
            submit::flag(s, seq!["quietStartup"@], false) || submit::flag(
                s,
                seq!["terminal"@, "quietStartup"@],
                false,
            ),
        ),
        plain_setting(
            SettingKey::DoubleEscapeAction,
            "Double-escape action"@,
            "Action when pressing Escape twice with empty editor"@,
            context.double_escape_action.name(),
            seq!["tree"@, "fork"@, "none"@],
        ),
    ]
}

/// The settings that open a choice.
pub open spec fn menu_settings(state: SessionState, context: SettingsContext) -> Seq<SettingView> {
    let reasoning = state.model is Some && state.model->0.reasoning;
    let theme = text_setting(context.settings, "theme"@, "dark"@);
    seq![
        SettingView {
            id: key_id(SettingKey::ThinkingLevel),
            label: "Thinking level"@,
            description: "Reasoning depth for thinking-capable models"@,
            current_value: state.thinking_level@,
            values: Seq::empty(),
            submenu: Some(
                SubmenuView {
                    title: "Thinking Level"@,
                    description: "Select reasoning depth for thinking-capable models"@,
                    options: level_items(thinking_levels(reasoning, context.supports_xhigh)),
                    current_value: state.thinking_level@,
                },
            ),
        },
        SettingView {
            id: key_id(SettingKey::Theme),
            label: "Theme"@,
            description: "Color theme for the interface"@,
            current_value: theme,
            values: Seq::empty(),
            submenu: Some(
                SubmenuView {
                    title: "Theme"@,
                    description: "Select color theme"@,
                    options: name_items(themes(text::texts(context.theme_names@))),
                    current_value: theme,
                },
            ),
        },
    ]
}

/// All settings as they are listed.
pub open spec fn settings_list(state: SessionState, context: SettingsContext) -> Seq<SettingView> {
    first_settings(state, context) + middle_settings(state, context) + menu_settings(state, context)
}

fn list_of(names: &[&str]) -> (r: Vec<String>)
    ensures
        text::texts(r@) == json::slices(names@),
{
    let ghost all = json::slices(names@);
    let mut out: Vec<String> = Vec::new();
    let mut i: usize = 0;
    assert(all.take(0) =~= Seq::<Seq<char>>::empty());
    while i < names.len()
        invariant
            0 <= i <= names.len(),
            all == json::slices(names@),
            text::texts(out@) == all.take(i as int),
        decreases names.len() - i,
    {
        out.push(copy_text(names[i]));
        i += 1;
        assert(all.take(i as int) =~= all.take(i - 1).push(all[i - 1]));
    }
    assert(all.take(i as int) =~= all);
    out
}

fn plain(key: SettingKey, label: &str, description: &str, current_value: String, values: &[&str]) -> (r:
    SettingItem)
    ensures
        r@ == plain_setting(key, label@, description@, current_value@, json::slices(values@)),
{
    SettingItem {
        id: copy_text(setting_key_value(key)),
        label: copy_text(label),
        description: copy_text(description),
        current_value,
        values: list_of(values),
        submenu: None,
    }
}

fn switch(key: SettingKey, label: &str, description: &str, on: bool) -> (r: SettingItem)
    ensures
        r@ == switch_setting(key, label@, description@, on),
{
    let values: [&str; 2] = ["true", "false"];
    assert(json::slices(values@) =~= seq!["true"@, "false"@]);
    plain(key, label, description, copy_text(bool_value(on)), values.as_slice())
}

fn push_setting(out: &mut Vec<SettingItem>, item: SettingItem)
    ensures
        setting_views(final(out)@) == setting_views(old(out)@).push(item@),
{
    let ghost earlier = setting_views(out@);
    out.push(item);
    assert(setting_views(out@) =~= earlier.push(item@));
}

fn build_first(state: &SessionState, context: &SettingsContext) -> (r: Vec<SettingItem>)
    ensures
        setting_views(r@) == first_settings(*state, *context),
{
    let s = &context.settings;
    let mut out: Vec<SettingItem> = Vec::new();
    assert(setting_views(out@) =~= Seq::<SettingView>::empty());
    push_setting(
        &mut out,
        switch(
            SettingKey::AutoCompact,
            "Auto-compact",
            "Automatically compact context when it gets too large",
            state.auto_compaction_enabled,
        ),
    );
    if context.inline_images {
        push_setting(
            &mut out,
            switch(
                SettingKey::ShowImages,
                "Show images",
                "Render images inline in terminal",
                context.show_images,
            ),
        );
    }
    push_setting(
        &mut out,
        switch(
            SettingKey::AutoResizeImages,
            "Auto-resize images",
            "Resize large images to 2000x2000 max for better model compatibility",
            flag_in(s, "images", "autoResize", true),
        ),
    );
    push_setting(
        &mut out,
        switch(
            SettingKey::BlockImages,
            "Block images",
            "Prevent images from being sent to LLM providers",
            flag_in(s, "images", "blockImages", false),
        ),
    );
    push_setting(
        &mut out,
        switch(
            SettingKey::SkillCommands,
            "Skill commands",
            "Register skills as /skill:name commands",
            flag_at(s, "enableSkillCommands", true),
        ),
    );
    push_setting(
        &mut out,
        switch(
            SettingKey::ShowHardwareCursor,
            "Show hardware cursor",
            "Show the terminal cursor while still positioning it for IME support",
            flag_at(s, "showHardwareCursor", context.hardware_cursor),
        ),
    );
    let paddings: [&str; 4] = ["0", "1", "2", "3"];
    assert(json::slices(paddings@) =~= seq!["0"@, "1"@, "2"@, "3"@]);
    let padding: i64 = number_at(s, "editorPaddingX", 0, 0, 3);
    push_setting(
        &mut out,
        plain(
            SettingKey::EditorPadding,
            "Editor padding",
            "Horizontal padding for input editor (0-3)",
            decimal_text(padding as u64),
            paddings.as_slice(),
        ),
    );
    let counts: [&str; 6] = ["3", "5", "7", "10", "15", "20"];
    assert(json::slices(counts@) =~= seq!["3"@, "5"@, "7"@, "10"@, "15"@, "20"@]);
    let count: i64 = number_at(s, "autocompleteMaxVisible", 5, 3, 20);
    push_setting(
        &mut out,
        plain(
            SettingKey::AutocompleteMaxVisible,
            "Autocomplete max items",
            "Max visible items in autocomplete dropdown (3-20)",
            decimal_text(count as u64),
            counts.as_slice(),
        ),
    );
    push_setting(
        &mut out,
        switch(
            SettingKey::ClearOnShrink,
            "Clear on shrink",
            "Clear empty rows when content shrinks (may cause flicker)",
            flag_in(s, "terminal", "clearOnShrink", false),
        ),
    );
    assert(setting_views(out@) =~= first_settings(*state, *context));
    out
}

fn build_middle(state: &SessionState, context: &SettingsContext) -> (r: Vec<SettingItem>)
    ensures
        setting_views(r@) == middle_settings(*state, *context),
{
    let s = &context.settings;
    let mut out: Vec<SettingItem> = Vec::new();
    assert(setting_views(out@) =~= Seq::<SettingView>::empty());
    let deliveries: [&str; 2] = ["one-at-a-time", "all"];
    assert(json::slices(deliveries@) =~= seq!["one-at-a-time"@, "all"@]);
    push_setting(
        &mut out,
        plain(
            SettingKey::SteeringMode,
            "Steering mode",
            "Enter while streaming queues steering messages. 'one-at-a-time': deliver one, wait for response. 'all': deliver all at once.",
            copy_text(queue_mode_value(state.steering_mode)),
            deliveries.as_slice(),
        ),
    );
    push_setting(
        &mut out,
        plain(
            SettingKey::FollowUpMode,
            "Follow-up mode",
            "Alt+Enter queues follow-up messages until agent stops. 'one-at-a-time': deliver one, wait for response. 'all': deliver all at once.",
            copy_text(queue_mode_value(state.follow_up_mode)),
            deliveries.as_slice(),
        ),
    );
    let transports: [&str; 3] = ["sse", "websocket", "auto"];
    assert(json::slices(transports@) =~= seq!["sse"@, "websocket"@, "auto"@]);
    push_setting(
        &mut out,
        plain(
            SettingKey::Transport,
            "Transport",
            "Preferred transport for providers that support multiple transports",
            text_setting_or(s, "transport", "sse"),
            transports.as_slice(),
        ),
    );
    push_setting(
        &mut out,
        switch(
            SettingKey::HideThinking,
            "Hide thinking",
            "Hide thinking blocks in assistant responses",
            context.hide_thinking,
        ),
    );
    push_setting(
        &mut out,
        switch(
            SettingKey::CollapseChangelog,
            "Collapse changelog",
            "Show condensed changelog after updates",
            flag_at(s, "collapseChangelog", false),
        ),
    );
    push_setting(
        &mut out,
        switch(
            SettingKey::QuietStartup,
            "Quiet startup",
            "Disable verbose printing at startup",
            flag_at(s, "quietStartup", false) || flag_in(s, "terminal", "quietStartup", false),
        ),
    );
    let escapes: [&str; 3] = ["tree", "fork", "none"];
    assert(json::slices(escapes@) =~= seq!["tree"@, "fork"@, "none"@]);
    push_setting(
        &mut out,
        plain(
            SettingKey::DoubleEscapeAction,
            "Double-escape action",
            "Action when pressing Escape twice with empty editor",
            copy_text(context.double_escape_action.as_str()),
            escapes.as_slice(),
        ),
    );
    assert(setting_views(out@) =~= middle_settings(*state, *context));
    out
}

fn describe_level(level: &str) -> (r: &'static str)
    ensures
        r@ == level_meaning(level@),
{
    if same(level, "off") {
        "No reasoning"
    } else if same(level, "minimal") {
        "Very brief reasoning (~1k tokens)"
    } else if same(level, "low") {
        "Light reasoning (~2k tokens)"
    } else if same(level, "medium") {
        "Moderate reasoning (~8k tokens)"
    } else if same(level, "high") {
        "Deep reasoning (~16k tokens)"
    } else if same(level, "xhigh") {
        "Maximum reasoning (~32k tokens)"
    } else {
        ""
    }
}

fn list_levels(reasoning: bool, xhigh: bool) -> (r: Vec<String>)
    ensures
        text::texts(r@) == thinking_levels(reasoning, xhigh),
{
    let mut out: Vec<String> = Vec::new();
    out.push(copy_text("off"));
    if reasoning {
        out.push(copy_text("minimal"));
        out.push(copy_text("low"));
        out.push(copy_text("medium"));
        out.push(copy_text("high"));
        if xhigh {
            out.push(copy_text("xhigh"));
        }
    }
    assert(text::texts(out@) =~= thinking_levels(reasoning, xhigh));
    out
}

fn items_of_levels(levels: &[String]) -> (r: Vec<SelectItem>)
    ensures
        overlay::items(r@) == level_items(text::texts(levels@)),
{
    let ghost shown = level_items(text::texts(levels@));
    let mut out: Vec<SelectItem> = Vec::new();
    let mut i: usize = 0;
    assert(overlay::items(out@) =~= shown.take(0));
    while i < levels.len()
        invariant
            0 <= i <= levels.len(),
            shown == level_items(text::texts(levels@)),
            overlay::items(out@) == shown.take(i as int),
        decreases levels.len() - i,
    {
        let item = SelectItem {
            value: copy_text(levels[i].as_str()),
            label: copy_text(levels[i].as_str()),
            description: Some(copy_text(describe_level(levels[i].as_str()))),
        };
        assert(item@ == shown[i as int]);
        let ghost earlier = out@;
        out.push(item);
        i += 1;
        assert(overlay::items(out@) =~= overlay::items(earlier).push(shown[i - 1]));
        assert(overlay::items(out@) =~= shown.take(i as int));
    }
    assert(shown.take(i as int) =~= shown);
    out
}

fn items_of_names(names: &[String]) -> (r: Vec<SelectItem>)
    ensures
        overlay::items(r@) == name_items(text::texts(names@)),
{
    let ghost shown = name_items(text::texts(names@));
    let mut out: Vec<SelectItem> = Vec::new();
    let mut i: usize = 0;
    assert(overlay::items(out@) =~= shown.take(0));
    while i < names.len()
        invariant
            0 <= i <= names.len(),
            shown == name_items(text::texts(names@)),
            overlay::items(out@) == shown.take(i as int),
        decreases names.len() - i,
    {
        let item = SelectItem {
            value: copy_text(names[i].as_str()),
            label: copy_text(names[i].as_str()),
            description: None,
        };
        assert(item@ == shown[i as int]);
        let ghost earlier = out@;
        out.push(item);
        i += 1;
        assert(overlay::items(out@) =~= overlay::items(earlier).push(shown[i - 1]));
        assert(overlay::items(out@) =~= shown.take(i as int));
    }
    assert(shown.take(i as int) =~= shown);
    out
}

fn list_themes(names: &[String]) -> (r: Vec<String>)
    ensures
        text::texts(r@) == themes(text::texts(names@)),
{
    let mut all: Vec<String> = Vec::new();
    all.push(copy_text("dark"));
    all.push(copy_text("light"));
    text::extend_texts(&mut all, names);
    assert(text::texts(all@) =~= seq!["dark"@, "light"@] + text::texts(names@));
    sort_once(all.as_slice())
}

fn build_menus(state: &SessionState, context: &SettingsContext) -> (r: Vec<SettingItem>)
    ensures
        setting_views(r@) == menu_settings(*state, *context),
{
    let reasoning = match &state.model {
        Some(model) => model.reasoning,
        None => false,
    };
    let levels = list_levels(reasoning, context.supports_xhigh);
    let mut out: Vec<SettingItem> = Vec::new();
    assert(setting_views(out@) =~= Seq::<SettingView>::empty());
    let no_values: Vec<String> = Vec::new();
    push_setting(
        &mut out,
        SettingItem {
            id: copy_text(setting_key_value(SettingKey::ThinkingLevel)),
            label: copy_text("Thinking level"),
            description: copy_text("Reasoning depth for thinking-capable models"),
            current_value: copy_text(state.thinking_level.as_str()),
            values: no_values,
            submenu: Some(
                SettingSubmenu {
                    title: copy_text("Thinking Level"),
                    description: copy_text("Select reasoning depth for thinking-capable models"),
                    options: items_of_levels(levels.as_slice()),
                    current_value: copy_text(state.thinking_level.as_str()),
                },
            ),
        },
    );
    let names = list_themes(context.theme_names.as_slice());
    let theme = text_setting_or(&context.settings, "theme", "dark");
    let none: Vec<String> = Vec::new();
    push_setting(
        &mut out,
        SettingItem {
            id: copy_text(setting_key_value(SettingKey::Theme)),
            label: copy_text("Theme"),
            description: copy_text("Color theme for the interface"),
            current_value: copy_text(theme.as_str()),
            values: none,
            submenu: Some(
                SettingSubmenu {
                    title: copy_text("Theme"),
                    description: copy_text("Select color theme"),
                    options: items_of_names(names.as_slice()),
                    current_value: theme,
                },
            ),
        },
    );
    assert(setting_views(out@) =~= menu_settings(*state, *context));
    out
}

/// All settings as they are listed.
pub fn build_settings_items(state: &SessionState, context: &SettingsContext) -> (r: Vec<SettingItem>)
    ensures
        setting_views(r@) == settings_list(*state, *context),
{
    let mut out = build_first(state, context);
    let mut middle = build_middle(state, context);
    let mut menus = build_menus(state, context);
    let ghost a = out@;
    let ghost b = middle@;
    let ghost c = menus@;
    out.append(&mut middle);
    out.append(&mut menus);
    assert(setting_views(out@) =~= setting_views(a) + setting_views(b) + setting_views(c));
    out
}

/// How a provider is talked to.
#[derive(Clone, Copy, Debug, PartialEq, Eq, Structural)]
pub enum TransportSetting {
    Sse,
    Websocket,
    Auto,
}

/// A change of a setting that is written down.
#[derive(Clone, Debug, PartialEq, Eq)]
pub enum SettingChange {
    /// The setting is unknown.
    Unknown,
    /// A setting is switched on or off.
    Switch(SettingKey, bool),
    /// A setting becomes a number.
    Number(SettingKey, i64),
    Delivery(SettingKey, QueueMode),
    Transport(TransportSetting),
    ThinkingLevel(String),
    Theme(String),
    /// What is done now, and what is written down.
    DoubleEscape { now: DoubleEscapeAction, kept: DoubleEscapeAction },
}

/// A change of a setting, as a mathematical value.
pub enum ChangeView {
    Unknown,
    Switch(SettingKey, bool),
    Number(SettingKey, int),
    Delivery(SettingKey, QueueMode),
    Transport(TransportSetting),
    ThinkingLevel(Seq<char>),
    Theme(Seq<char>),
    DoubleEscape { now: DoubleEscapeAction, kept: DoubleEscapeAction },
}

impl View for SettingChange {
    type V = ChangeView;

    open spec fn view(&self) -> ChangeView {
        match self {
            SettingChange::Unknown => ChangeView::Unknown,
            SettingChange::Switch(key, on) => ChangeView::Switch(*key, *on),
            SettingChange::Number(key, n) => ChangeView::Number(*key, *n as int),
            SettingChange::Delivery(key, mode) => ChangeView::Delivery(*key, *mode),
            SettingChange::Transport(t) => ChangeView::Transport(*t),
            SettingChange::ThinkingLevel(s) => ChangeView::ThinkingLevel(s@),
            SettingChange::Theme(s) => ChangeView::Theme(s@),
            SettingChange::DoubleEscape { now, kept } => ChangeView::DoubleEscape {
                now: *now,
                kept: *kept,
            },
        }
    }
}

/// The number that digits write, from left to right.
pub open spec fn digits_value(s: Seq<char>) -> nat
    decreases s.len(),
{
    if s.len() == 0 {
        0
    } else {
        (digits_value(s.drop_last()) * 10 + (s.last() as nat - '0' as nat)) as nat
    }
}

/// Whether a character is a digit.
pub open spec fn is_digit(c: char) -> bool {
    '0' <= c <= '9'
}

/// Whether a text is made of digits, at least one.
pub open spec fn all_digits(s: Seq<char>) -> bool {
    s.len() > 0 && forall|i: int| 0 <= i < s.len() ==> is_digit(#[trigger] s[i])
}

/// The whole number of 64 bits that a text writes, with a sign or without one.
pub open spec fn parsed_number(s: Seq<char>) -> Option<int> {
    let negative = s.len() > 0 && s[0] == '-';
    let signed = negative || (s.len() > 0 && s[0] == '+');
    let digits = if signed {
        s.skip(1)
    } else {
        s
    };
    let value = if negative {
        -(digits_value(digits) as int)
    } else {
        digits_value(digits) as int
    };
    if all_digits(digits) && i64::MIN <= value <= i64::MAX {
        Some(value)
    } else {
        None
    }
}

proof fn value_grows(s: Seq<char>, n: int)
    requires
        0 <= n <= s.len(),
        forall|i: int| 0 <= i < s.len() ==> is_digit(#[trigger] s[i]),
    ensures
        digits_value(s.take(n)) <= digits_value(s),
    decreases s.len(),
{
    if n == s.len() {
        assert(s.take(n) =~= s);
    } else {
        let shorter = s.drop_last();
        assert forall|i: int| 0 <= i < shorter.len() implies is_digit(#[trigger] shorter[i]) by {
            assert(shorter[i] == s[i]);
        }
        value_grows(shorter, n);
        assert(shorter.take(n) =~= s.take(n));
        assert(is_digit(s[s.len() - 1]));
    }
}

/// The whole number of 64 bits that a text writes.
pub fn parse_number(s: &str) -> (r: Option<i64>)
    ensures
        match r {
            Some(n) => parsed_number(s@) == Some(n as int),
            None => parsed_number(s@) is None,
        },
{
    let v = chars_of(s);
    let len: usize = v.len();
    let negative = len > 0 && v[0] == '-';
    let signed = negative || (len > 0 && v[0] == '+');
    let start: usize = if signed {
        1
    } else {
        0
    };
    let ghost digits = v@.skip(start as int);
    proof {
        if !signed {
            assert(digits =~= v@);
        }
    }
    if start == len {
        return None;
    }
    let mut value: u128 = 0;
    let mut i: usize = start;
    assert(digits.take(0) =~= Seq::<char>::empty());
    while i < len
        invariant
            len == v@.len(),
            v@ == s@,
            start <= i <= len,
            start == (if v@.len() > 0 && (v@[0] == '-' || v@[0] == '+') {
                1int
            } else {
                0int
            }),
            digits == v@.skip(start as int),
            value <= 0x1_0000_0000_0000_0000,
            value == digits_value(digits.take(i - start)),
            forall|j: int| 0 <= j < i - start ==> is_digit(#[trigger] digits[j]),
        decreases len - i,
    {
        let c = v[i];
        assert(digits[i - start] == c);
        if !('0' <= c && c <= '9') {
            assert(!is_digit(digits[i - start]));
            proof {
                not_digits(s@, digits, start as int, i - start);
            }
            return None;
        }
        assert(digits.take(i - start + 1).drop_last() =~= digits.take(i - start));
        let d: u128 = (c as u8 - 48) as u128;
        let next: u128 = value * 10 + d;
        if next > 0x1_0000_0000_0000_0000 {
            proof {
                too_large(s@, digits, start as int, i - start + 1);
            }
            return None;
        }
        value = next;
        i += 1;
    }
    assert(digits.take(i - start) =~= digits);
    assert(all_digits(digits));
    if negative {
        if value <= 0x8000_0000_0000_0000 {
            Some((-(value as i128)) as i64)
        } else {
            None
        }
    } else {
        if value <= 0x7fff_ffff_ffff_ffff {
            Some(value as i64)
        } else {
            None
        }
    }
}

proof fn not_digits(s: Seq<char>, digits: Seq<char>, start: int, i: int)
    requires
        digits == s.skip(start),
        0 <= start <= s.len(),
        start == (if s.len() > 0 && (s[0] == '-' || s[0] == '+') {
            1int
        } else {
            0int
        }),
        0 <= i < digits.len(),
        !is_digit(digits[i]),
    ensures
        parsed_number(s) is None,
{
    if start == 0 {
        assert(digits =~= s);
    }
}

proof fn too_large(s: Seq<char>, digits: Seq<char>, start: int, n: int)
    requires
        digits == s.skip(start),
        0 <= start <= s.len(),
        start == (if s.len() > 0 && (s[0] == '-' || s[0] == '+') {
            1int
        } else {
            0int
        }),
        0 <= n <= digits.len(),
        digits_value(digits.take(n)) > 0x1_0000_0000_0000_0000,
    ensures
        parsed_number(s) is None,
{
    if start == 0 {
        assert(digits =~= s);
    }
    if all_digits(digits) {
        value_grows(digits, n);
    }
}

/// The number that a value writes, or another one, kept between two others.
pub open spec fn number_value(value: Seq<char>, default: int, low: int, high: int) -> int {
    clamped(
        match parsed_number(value) {
            Some(n) => n,
            None => default,
        },
        low,
        high,
    )
}

fn number_of(value: &str, default: i64, low: i64, high: i64) -> (r: i64)
    ensures
        r == number_value(value@, default as int, low as int, high as int),
{
    let n: i64 = match parse_number(value) {
        Some(n) => n,
        None => default,
    };
    clamp_number(n, low, high)
}

/// How a provider is talked to by a value.
pub open spec fn transport_named(value: Seq<char>) -> TransportSetting {
    if value == "sse"@ {
        TransportSetting::Sse
    } else if value == "websocket"@ {
        TransportSetting::Websocket
    } else {
        TransportSetting::Auto
    }
}

/// What is written down of the action that a value names.
pub open spec fn kept_escape(value: Seq<char>) -> DoubleEscapeAction {
    if value == "tree"@ {
        DoubleEscapeAction::Tree
    } else if value == "fork"@ {
        DoubleEscapeAction::Fork
    } else {
        DoubleEscapeAction::Nothing
    }
}

/// The change that a value asks for.
pub open spec fn setting_change(id: Seq<char>, value: Seq<char>) -> ChangeView {
    match key_with_id(id) {
        None => ChangeView::Unknown,
        Some(key) => match key {
            SettingKey::SteeringMode | SettingKey::FollowUpMode => ChangeView::Delivery(
                key,
                submit::queue_mode(Some(value)),
            ),
            SettingKey::Transport => ChangeView::Transport(transport_named(value)),
            SettingKey::ThinkingLevel => ChangeView::ThinkingLevel(value),
            SettingKey::Theme => ChangeView::Theme(value),
            SettingKey::EditorPadding => ChangeView::Number(key, number_value(value, 0, 0, 3)),
            SettingKey::AutocompleteMaxVisible => ChangeView::Number(
                key,
                number_value(value, 5, 3, 20),
            ),
            SettingKey::DoubleEscapeAction => ChangeView::DoubleEscape {
                now: DoubleEscapeAction::named(Some(value)),
                kept: kept_escape(value),
            },
            _ => ChangeView::Switch(key, value == "true"@),
        },
    }
}

/// The change that a value asks for.
pub fn read_setting_change(id: &str, value: &str) -> (r: SettingChange)
    ensures
        r@ == setting_change(id@, value@),
{
    let key = match setting_with_id(id) {
        Some(key) => key,
        None => {
            return SettingChange::Unknown;
        },
    };
    match key {
        SettingKey::SteeringMode | SettingKey::FollowUpMode => SettingChange::Delivery(
            key,
            if same(value, "all") {
                QueueMode::All
            } else {
                QueueMode::OneAtATime
            },
        ),
        SettingKey::Transport => SettingChange::Transport(
            if same(value, "sse") {
                TransportSetting::Sse
            } else if same(value, "websocket") {
                TransportSetting::Websocket
            } else {
                TransportSetting::Auto
            },
        ),
        SettingKey::ThinkingLevel => SettingChange::ThinkingLevel(copy_text(value)),
        SettingKey::Theme => SettingChange::Theme(copy_text(value)),
        SettingKey::EditorPadding => SettingChange::Number(key, number_of(value, 0, 0, 3)),
        SettingKey::AutocompleteMaxVisible => SettingChange::Number(
            key,
            number_of(value, 5, 3, 20),
        ),
        SettingKey::DoubleEscapeAction => SettingChange::DoubleEscape {
            now: DoubleEscapeAction::from_settings(Some(value)),
            kept: if same(value, "tree") {
                DoubleEscapeAction::Tree
            } else if same(value, "fork") {
                DoubleEscapeAction::Fork
            } else {
                DoubleEscapeAction::Nothing
            },
        },
        _ => SettingChange::Switch(key, same(value, "true")),
    }
}

/// The name before a value in what is said of a setting.
pub open spec fn spoken_name(key: SettingKey) -> Seq<char> {
    match key {
        SettingKey::AutoCompact => "Auto-compact: "@,
        SettingKey::SteeringMode => "Steering mode: "@,
        SettingKey::FollowUpMode => "Follow-up mode: "@,
        SettingKey::HideThinking => "Hide thinking: "@,
        SettingKey::CollapseChangelog => "Collapse changelog: "@,
        SettingKey::QuietStartup => "Quiet startup: "@,
        SettingKey::ShowImages => "Show images: "@,
        SettingKey::AutoResizeImages => "Auto-resize images: "@,
        SettingKey::BlockImages => "Block images: "@,
        SettingKey::SkillCommands => "Skill commands: "@,
        SettingKey::ShowHardwareCursor => "Saved hardware cursor preference: "@,
        SettingKey::EditorPadding => "Saved editor padding: "@,
        SettingKey::AutocompleteMaxVisible => "Saved autocomplete max items: "@,
        SettingKey::ClearOnShrink => "Clear on shrink: "@,
        SettingKey::Transport => "Saved transport: "@,
        SettingKey::DoubleEscapeAction => "Double-escape action: "@,
        SettingKey::ThinkingLevel => "Thinking level: "@,
        SettingKey::Theme => "Saved theme: "@,
    }
}

fn name_of(key: SettingKey) -> (r: &'static str)
    ensures
        r@ == spoken_name(key),
{
    match key {
        SettingKey::AutoCompact => "Auto-compact: ",
        SettingKey::SteeringMode => "Steering mode: ",
        SettingKey::FollowUpMode => "Follow-up mode: ",
        SettingKey::HideThinking => "Hide thinking: ",
        SettingKey::CollapseChangelog => "Collapse changelog: ",
        SettingKey::QuietStartup => "Quiet startup: ",
        SettingKey::ShowImages => "Show images: ",
        SettingKey::AutoResizeImages => "Auto-resize images: ",
        SettingKey::BlockImages => "Block images: ",
        SettingKey::SkillCommands => "Skill commands: ",
        SettingKey::ShowHardwareCursor => "Saved hardware cursor preference: ",
        SettingKey::EditorPadding => "Saved editor padding: ",
        SettingKey::AutocompleteMaxVisible => "Saved autocomplete max items: ",
        SettingKey::ClearOnShrink => "Clear on shrink: ",
        SettingKey::Transport => "Saved transport: ",
        SettingKey::DoubleEscapeAction => "Double-escape action: ",
        SettingKey::ThinkingLevel => "Thinking level: ",
        SettingKey::Theme => "Saved theme: ",
    }
}

/// What is said once a setting has been changed. The thinking level that the session keeps may be
/// another one than was asked for.
pub open spec fn change_status(id: Seq<char>, value: Seq<char>, level: Seq<char>) -> Seq<char> {
    match setting_change(id, value) {
        ChangeView::Unknown => "Unknown setting: "@ + id,
        ChangeView::Switch(key, on) => spoken_name(key) + submit::bool_name(on) + (if key
            == SettingKey::ShowHardwareCursor {
            "."@
        } else {
            ""@
        }),
        ChangeView::Number(key, n) => spoken_name(key) + text::decimal(n as nat) + "."@,
        ChangeView::Delivery(key, mode) => spoken_name(key) + submit::queue_mode_name(mode),
        ChangeView::Transport(t) => spoken_name(SettingKey::Transport) + value
            + ". Run /reload before the next prompt."@,
        ChangeView::ThinkingLevel(s) => spoken_name(SettingKey::ThinkingLevel) + level,
        ChangeView::Theme(s) => spoken_name(SettingKey::Theme) + value
            + ". Theme rendering parity is still in progress."@,
        ChangeView::DoubleEscape { now, kept } => spoken_name(SettingKey::DoubleEscapeAction)
            + value,
    }
}

proof fn number_is_small(id: Seq<char>, value: Seq<char>)
    ensures
        setting_change(id, value) matches ChangeView::Number(key, n) ==> 0 <= n <= 20,
{
}

/// What is said once a setting has been changed.
pub fn setting_status(id: &str, value: &str, thinking_level: &str) -> (r: String)
    ensures
        r@ == change_status(id@, value@, thinking_level@),
{
    proof {
        number_is_small(id@, value@);
    }
    match read_setting_change(id, value) {
        SettingChange::Unknown => cat2("Unknown setting: ", id),
        SettingChange::Switch(key, on) => cat3(
            name_of(key),
            bool_value(on),
            if key == SettingKey::ShowHardwareCursor {
                "."
            } else {
                ""
            },
        ),
        SettingChange::Number(key, n) => cat3(name_of(key), decimal_text(n as u64).as_str(), "."),
        SettingChange::Delivery(key, mode) => cat2(name_of(key), queue_mode_value(mode)),
        SettingChange::Transport(_) => cat3(
            name_of(SettingKey::Transport),
            value,
            ". Run /reload before the next prompt.",
        ),
        SettingChange::ThinkingLevel(_) => cat2(name_of(SettingKey::ThinkingLevel), thinking_level),
        SettingChange::Theme(_) => cat3(
            name_of(SettingKey::Theme),
            value,
            ". Theme rendering parity is still in progress.",
        ),
        SettingChange::DoubleEscape { .. } => cat2(
            name_of(SettingKey::DoubleEscapeAction),
            value,
        ),
    }
}

/// What a change of a setting does to the session.
#[derive(Clone, Debug, PartialEq, Eq)]
pub enum SessionEffect {
    Nothing,
    AutoCompact(bool),
    SteeringMode(QueueMode),
    FollowUpMode(QueueMode),
    ThinkingLevel(String),
}

/// What a change of a setting does to the session, as a mathematical value.
pub enum SessionEffectView {
    Nothing,
    AutoCompact(bool),
    SteeringMode(QueueMode),
    FollowUpMode(QueueMode),
    ThinkingLevel(Seq<char>),
}

impl View for SessionEffect {
    type V = SessionEffectView;

    open spec fn view(&self) -> SessionEffectView {
        match self {
            SessionEffect::Nothing => SessionEffectView::Nothing,
            SessionEffect::AutoCompact(on) => SessionEffectView::AutoCompact(*on),
            SessionEffect::SteeringMode(mode) => SessionEffectView::SteeringMode(*mode),
            SessionEffect::FollowUpMode(mode) => SessionEffectView::FollowUpMode(*mode),
            SessionEffect::ThinkingLevel(level) => SessionEffectView::ThinkingLevel(level@),
        }
    }
}

/// What a change of a setting does to the interface.
#[derive(Clone, Copy, Debug, PartialEq, Eq, Structural)]
pub enum InterfaceEffect {
    Nothing,
    HideThinking(bool),
    QuietStartup(bool),
    ShowImages(bool),
    DoubleEscape(DoubleEscapeAction),
}

/// All that a change of a setting does: to the session, to the interface, whether it is written down,
/// and whether the snapshot of the session or the completions are renewed after it.
#[derive(Clone, Debug, PartialEq, Eq)]
pub struct SettingEffects {
    pub session: SessionEffect,
    pub interface: InterfaceEffect,
    pub written: bool,
    pub renews_snapshot: bool,
    pub renews_completions: bool,
}

/// All that a change of a setting does, as a mathematical value.
pub struct EffectsView {
    pub session: SessionEffectView,
    pub interface: InterfaceEffect,
    pub written: bool,
    pub renews_snapshot: bool,
    pub renews_completions: bool,
}

impl View for SettingEffects {
    type V = EffectsView;

    open spec fn view(&self) -> EffectsView {
        EffectsView {
            session: self.session@,
            interface: self.interface,
            written: self.written,
            renews_snapshot: self.renews_snapshot,
            renews_completions: self.renews_completions,
        }
    }
}

/// What a change does to the session.
pub open spec fn session_effect(change: ChangeView) -> SessionEffectView {
    match change {
        ChangeView::Switch(SettingKey::AutoCompact, on) => SessionEffectView::AutoCompact(on),
        ChangeView::Delivery(SettingKey::SteeringMode, mode) => SessionEffectView::SteeringMode(mode),
        ChangeView::Delivery(SettingKey::FollowUpMode, mode) => SessionEffectView::FollowUpMode(mode),
        ChangeView::ThinkingLevel(level) => SessionEffectView::ThinkingLevel(level),
        _ => SessionEffectView::Nothing,
    }
}

/// What a change does to the interface.
pub open spec fn interface_effect(change: ChangeView) -> InterfaceEffect {
    match change {
        ChangeView::Switch(SettingKey::HideThinking, on) => InterfaceEffect::HideThinking(on),
        ChangeView::Switch(SettingKey::QuietStartup, on) => InterfaceEffect::QuietStartup(on),
        ChangeView::Switch(SettingKey::ShowImages, on) => InterfaceEffect::ShowImages(on),
        ChangeView::DoubleEscape { now, .. } => InterfaceEffect::DoubleEscape(now),
        _ => InterfaceEffect::Nothing,
    }
}

/// All that a change does. It is written down unless the setting is unknown; the snapshot is renewed
/// where the session was changed, and the completions where commands come or go.
pub open spec fn effects(change: ChangeView) -> EffectsView {
    EffectsView {
        session: session_effect(change),
        interface: interface_effect(change),
        written: change != ChangeView::Unknown,
        renews_snapshot: session_effect(change) != SessionEffectView::Nothing,
        renews_completions: change matches ChangeView::Switch(SettingKey::SkillCommands, _),
    }
}

/// All that a change of a setting does.
pub fn setting_effects(change: &SettingChange) -> (r: SettingEffects)
    ensures
        r@ == effects(change@),
{
    let session = match change {
        SettingChange::Switch(SettingKey::AutoCompact, on) => SessionEffect::AutoCompact(*on),
        SettingChange::Delivery(SettingKey::SteeringMode, mode) => SessionEffect::SteeringMode(*mode),
        SettingChange::Delivery(SettingKey::FollowUpMode, mode) => SessionEffect::FollowUpMode(*mode),
        SettingChange::ThinkingLevel(level) => SessionEffect::ThinkingLevel(
            copy_text(level.as_str()),
        ),
        _ => SessionEffect::Nothing,
    };
    let interface = match change {
        SettingChange::Switch(SettingKey::HideThinking, on) => InterfaceEffect::HideThinking(*on),
        SettingChange::Switch(SettingKey::QuietStartup, on) => InterfaceEffect::QuietStartup(*on),
        SettingChange::Switch(SettingKey::ShowImages, on) => InterfaceEffect::ShowImages(*on),
        SettingChange::DoubleEscape { now, .. } => InterfaceEffect::DoubleEscape(*now),
        _ => InterfaceEffect::Nothing,
    };
    let renews_snapshot = !matches!(session, SessionEffect::Nothing);
    SettingEffects {
        session,
        interface,
        written: !matches!(change, SettingChange::Unknown),
        renews_snapshot,
        renews_completions: matches!(change, SettingChange::Switch(SettingKey::SkillCommands, _)),
    }
}

/// What is said when the settings are left.
pub fn settings_cancelled_status() -> (r: &'static str)
    ensures
        r@ == "Settings cancelled."@,
{
    "Settings cancelled."
}

/// The digits of a number stand for that number.
pub proof fn decimals_are_read_back(n: nat)
    ensures
        all_digits(text::decimal(n)),
        digits_value(text::decimal(n)) == n,
        n <= i64::MAX ==> parsed_number(text::decimal(n)) == Some(n as int),
        0 < n && n <= i64::MAX ==> parsed_number(seq!['-'] + text::decimal(n)) == Some(
            -(n as int),
        ),
    decreases n,
{
    let s = text::decimal(n);
    if n < 10 {
        let d = text::digit(n);
        assert(d as nat == 48 + n);
        assert(s[0] == d);
        reveal_with_fuel(digits_value, 2);
        assert(s.drop_last() =~= Seq::<char>::empty());
        assert(digits_value(s) == n);
    } else {
        decimals_are_read_back(n / 10);
        let d = text::digit(n % 10);
        assert(d as nat == 48 + n % 10);
        assert(s.drop_last() =~= text::decimal(n / 10));
        assert(s.last() == d);
        assert forall|i: int| 0 <= i < s.len() implies is_digit(#[trigger] s[i]) by {
            if i < s.len() - 1 {
                assert(is_digit(text::decimal(n / 10)[i]));
            }
        }
        assert(digits_value(s) == digits_value(text::decimal(n / 10)) * 10 + n % 10);
    }
    assert(is_digit(s[0]));
    let below = seq!['-'] + s;
    assert(below.skip(1) =~= s);
}

/// Whether a setting is on or off, and nothing else.
pub open spec fn is_switch(key: SettingKey) -> bool {
    !(key is SteeringMode || key is FollowUpMode || key is Transport || key is ThinkingLevel || key
        is Theme || key is EditorPadding || key is AutocompleteMaxVisible || key
        is DoubleEscapeAction)
}

/// A switch becomes what it was set to.
pub proof fn switches_are_set(key: SettingKey, on: bool)
    requires
        is_switch(key),
    ensures
        setting_change(key_id(key), submit::bool_name(on)) == ChangeView::Switch(key, on),
{
    setting_ids_read_back(key);
    reveal_strlit("true");
    reveal_strlit("false");
    assert("true"@.len() != "false"@.len());
}

/// A number becomes what it was set to where it is allowed, and else the nearest that is; what is
/// no number becomes the usual one.
pub proof fn numbers_are_set(n: nat, s: Seq<char>)
    requires
        n <= i64::MAX,
    ensures
        setting_change(key_id(SettingKey::EditorPadding), text::decimal(n)) == ChangeView::Number(
            SettingKey::EditorPadding,
            if n <= 3 {
                n as int
            } else {
                3
            },
        ),
        setting_change(key_id(SettingKey::AutocompleteMaxVisible), text::decimal(n))
            == ChangeView::Number(
            SettingKey::AutocompleteMaxVisible,
            if n < 3 {
                3
            } else if n <= 20 {
                n as int
            } else {
                20
            },
        ),
        parsed_number(s) is None ==> setting_change(key_id(SettingKey::EditorPadding), s)
            == ChangeView::Number(SettingKey::EditorPadding, 0) && setting_change(
            key_id(SettingKey::AutocompleteMaxVisible),
            s,
        ) == ChangeView::Number(SettingKey::AutocompleteMaxVisible, 5),
{
    decimals_are_read_back(n);
    setting_ids_read_back(SettingKey::EditorPadding);
    setting_ids_read_back(SettingKey::AutocompleteMaxVisible);
}

/// The way in which messages are delivered, the level of thinking, the theme and the action of two
/// escapes become what they were set to.
pub proof fn values_are_set(mode: QueueMode, action: DoubleEscapeAction, s: Seq<char>)
    ensures
        setting_change(key_id(SettingKey::SteeringMode), submit::queue_mode_name(mode))
            == ChangeView::Delivery(SettingKey::SteeringMode, mode),
        setting_change(key_id(SettingKey::FollowUpMode), submit::queue_mode_name(mode))
            == ChangeView::Delivery(SettingKey::FollowUpMode, mode),
        setting_change(key_id(SettingKey::ThinkingLevel), s) == ChangeView::ThinkingLevel(s),
        setting_change(key_id(SettingKey::Theme), s) == ChangeView::Theme(s),
        setting_change(key_id(SettingKey::DoubleEscapeAction), action.name()) == (
        ChangeView::DoubleEscape { now: action, kept: action }),
        key_with_id(s) is None ==> setting_change(s, action.name()) == ChangeView::Unknown,
{
    setting_ids_read_back(SettingKey::SteeringMode);
    setting_ids_read_back(SettingKey::FollowUpMode);
    setting_ids_read_back(SettingKey::ThinkingLevel);
    setting_ids_read_back(SettingKey::Theme);
    setting_ids_read_back(SettingKey::DoubleEscapeAction);
    reveal_strlit("all");
    reveal_strlit("one-at-a-time");
    assert("all"@.len() != "one-at-a-time"@.len());
    reveal_strlit("tree");
    reveal_strlit("fork");
    reveal_strlit("none");
    assert("tree"@[0] != "fork"@[0] && "tree"@[0] != "none"@[0] && "fork"@[0] != "none"@[0]);
}

/// A change reaches what it is a change of: the session for what the session goes by, the
/// interface for what the interface goes by. Every known change is written down.
pub proof fn changes_take_effect(key: SettingKey, on: bool, mode: QueueMode, change: ChangeView)
    ensures
        session_effect(ChangeView::Switch(SettingKey::AutoCompact, on))
            == SessionEffectView::AutoCompact(on),
        session_effect(ChangeView::Delivery(SettingKey::SteeringMode, mode))
            == SessionEffectView::SteeringMode(mode),
        session_effect(ChangeView::Delivery(SettingKey::FollowUpMode, mode))
            == SessionEffectView::FollowUpMode(mode),
        change matches ChangeView::ThinkingLevel(level) ==> session_effect(change)
            == SessionEffectView::ThinkingLevel(level),
        interface_effect(ChangeView::Switch(SettingKey::HideThinking, on))
            == InterfaceEffect::HideThinking(on),
        interface_effect(ChangeView::Switch(SettingKey::QuietStartup, on))
            == InterfaceEffect::QuietStartup(on),
        interface_effect(ChangeView::Switch(SettingKey::ShowImages, on))
            == InterfaceEffect::ShowImages(on),
        change matches ChangeView::DoubleEscape { now, kept } ==> interface_effect(change)
            == InterfaceEffect::DoubleEscape(now),
        key != SettingKey::AutoCompact ==> session_effect(ChangeView::Switch(key, on))
            == SessionEffectView::Nothing,
        effects(change).written <==> change != ChangeView::Unknown,
        effects(change).session == session_effect(change),
        effects(change).interface == interface_effect(change),
        effects(ChangeView::Switch(SettingKey::SkillCommands, on)).renews_completions,
{
}

/// The list shows of each setting the value that it has.
#[verifier::rlimit(60)]
pub proof fn settings_show_their_values(state: SessionState, context: SettingsContext)
    ensures
        shows_value(
            settings_list(state, context),
            SettingKey::AutoCompact,
            submit::bool_name(state.auto_compaction_enabled),
        ),
        context.inline_images ==> shows_value(
            settings_list(state, context),
            SettingKey::ShowImages,
            submit::bool_name(context.show_images),
        ),
        shows_value(
            settings_list(state, context),
            SettingKey::SteeringMode,
            submit::queue_mode_name(state.steering_mode),
        ),
        shows_value(
            settings_list(state, context),
            SettingKey::FollowUpMode,
            submit::queue_mode_name(state.follow_up_mode),
        ),
        shows_value(
            settings_list(state, context),
            SettingKey::HideThinking,
            submit::bool_name(context.hide_thinking),
        ),
        shows_value(
            settings_list(state, context),
            SettingKey::DoubleEscapeAction,
            context.double_escape_action.name(),
        ),
        shows_value(
            settings_list(state, context),
            SettingKey::ThinkingLevel,
            state.thinking_level@,
        ),
        shows_value(
            settings_list(state, context),
            SettingKey::Theme,
            text_setting(context.settings, "theme"@, "dark"@),
        ),
{
    let first = first_settings(state, context);
    let middle = middle_settings(state, context);
    let menu = menu_settings(state, context);
    let all = settings_list(state, context);
    let n = first.len() as int;
    let m = middle.len() as int;
    assert(m == 7);
    assert(all[0] == first[0]);
    assert(shown_at(all, 0, SettingKey::AutoCompact, submit::bool_name(state.auto_compaction_enabled)));
    if context.inline_images {
        assert(all[1] == first[1]);
        assert(shown_at(all, 1, SettingKey::ShowImages, submit::bool_name(context.show_images)));
    }
    assert(all[n] == middle[0]);
    assert(shown_at(all, n, SettingKey::SteeringMode, submit::queue_mode_name(state.steering_mode)));
    assert(all[n + 1] == middle[1]);
    assert(shown_at(all, n + 1, SettingKey::FollowUpMode, submit::queue_mode_name(state.follow_up_mode)));
    assert(all[n + 3] == middle[3]);
    assert(shown_at(all, n + 3, SettingKey::HideThinking, submit::bool_name(context.hide_thinking)));
    assert(all[n + 6] == middle[6]);
    assert(shown_at(all, n + 6, SettingKey::DoubleEscapeAction, context.double_escape_action.name()));
    assert(all[n + 7] == menu[0]);
    assert(shown_at(all, n + 7, SettingKey::ThinkingLevel, state.thinking_level@));
    assert(all[n + 8] == menu[1]);
    assert(shown_at(all, n + 8, SettingKey::Theme, text_setting(context.settings, "theme"@, "dark"@)));
}

/// Whether the entry at a place is that of a setting and shows a value.
pub open spec fn shown_at(list: Seq<SettingView>, i: int, key: SettingKey, value: Seq<char>) -> bool {
    0 <= i < list.len() && list[i].id == key_id(key) && list[i].current_value == value
}

/// Whether a list shows a value of a setting.
pub open spec fn shows_value(list: Seq<SettingView>, key: SettingKey, value: Seq<char>) -> bool {
    exists|i: int| shown_at(list, i, key, value)
}

/// The levels of thinking that are offered are those that the model has: only one where it does
/// not think, and the hardest only where it can.
pub proof fn offered_levels_are_possible(level: Seq<char>, xhigh: bool, i: int)
    ensures
        thinking_levels(false, xhigh) == seq!["off"@],
        thinking_levels(true, xhigh).len() == (if xhigh {
            6int
        } else {
            5int
        }),
        thinking_levels(true, true).last() == "xhigh"@,
        0 <= i < 5 ==> thinking_levels(true, xhigh)[i] == thinking_levels(true, !xhigh)[i],
        0 <= i < thinking_levels(true, xhigh).len() ==> level_items(
            thinking_levels(true, xhigh),
        )[i].value == thinking_levels(true, xhigh)[i],
{
}

/// Every theme that was found is offered, and so are the two that are always there.
pub proof fn themes_are_offered(names: Seq<Seq<char>>, name: Seq<char>)
    ensures
        themes(names).contains(name) <==> names.contains(name) || name == "dark"@ || name
            == "light"@,
{
    let all = seq!["dark"@, "light"@] + names;
    sorted_holds(all, name);
    if names.contains(name) {
        let k = choose|k: int| 0 <= k < names.len() && names[k] == name;
        assert(all[k + 2] == name);
    }
    assert(all[0] == "dark"@ && all[1] == "light"@);
    if all.contains(name) {
        let k = choose|k: int| 0 <= k < all.len() && all[k] == name;
        if k >= 2 {
            assert(names[k - 2] == name);
        }
    }
}

proof fn sorted_holds(list: Seq<Seq<char>>, name: Seq<char>)
    ensures
        sorted_once(list).contains(name) <==> list.contains(name),
    decreases list.len(),
{
    if list.len() > 0 {
        let rest = list.drop_last();
        sorted_holds(rest, name);
        placed_holds(sorted_once(rest), list.last(), name);
        holds_or_last(list, name);
    }
}

proof fn holds_or_last(list: Seq<Seq<char>>, name: Seq<char>)
    requires
        list.len() > 0,
    ensures
        list.contains(name) <==> list.drop_last().contains(name) || list.last() == name,
{
    let rest = list.drop_last();
    if rest.contains(name) {
        let k = choose|k: int| 0 <= k < rest.len() && rest[k] == name;
        assert(list[k] == name);
    }
    if list.last() == name {
        assert(list[list.len() - 1] == name);
    }
    if list.contains(name) {
        let k = choose|k: int| 0 <= k < list.len() && list[k] == name;
        if k < rest.len() {
            assert(rest[k] == name);
        }
    }
}

proof fn placed_holds(sorted: Seq<Seq<char>>, t: Seq<char>, name: Seq<char>)
    ensures
        placed(sorted, t).contains(name) <==> sorted.contains(name) || t == name,
    decreases sorted.len(),
{
    let after = placed(sorted, t);
    if sorted.len() == 0 || text::text_less(sorted.last(), t) {
        holds_or_last(after, name);
        assert(after.drop_last() =~= sorted);
    } else if sorted.last() == t {
        holds_or_last(sorted, name);
    } else {
        placed_holds(sorted.drop_last(), t, name);
        holds_or_last(after, name);
        assert(after.drop_last() =~= placed(sorted.drop_last(), t));
        holds_or_last(sorted, name);
    }
}

/// What is said of a change names the setting as it is spoken of and the value that it got.
pub proof fn changes_are_spoken_of(key: SettingKey, on: bool, value: Seq<char>, level: Seq<char>)
    ensures
        is_switch(key) && key != SettingKey::ShowHardwareCursor ==> change_status(
            key_id(key),
            submit::bool_name(on),
            level,
        ) == spoken_name(key) + submit::bool_name(on),
        text::has_prefix(change_status(key_id(key), value, level), spoken_name(key)),
        change_status(key_id(SettingKey::ThinkingLevel), value, level) == "Thinking level: "@
            + level,
        change_status(key_id(SettingKey::DoubleEscapeAction), value, level)
            == "Double-escape action: "@ + value,
        key_with_id(value) is None ==> change_status(value, level, level) == "Unknown setting: "@
            + value,
{
    setting_ids_read_back(key);
    setting_ids_read_back(SettingKey::ThinkingLevel);
    setting_ids_read_back(SettingKey::DoubleEscapeAction);
    reveal_strlit("");
    if is_switch(key) {
        switches_are_set(key, on);
        assert(key != SettingKey::ShowHardwareCursor ==> change_status(
            key_id(key),
            submit::bool_name(on),
            level,
        ) =~= spoken_name(key) + submit::bool_name(on));
    }
    let told = change_status(key_id(key), value, level);
    let name = spoken_name(key);
    assert(told.take(name.len() as int) =~= name);
}

} // verus!
