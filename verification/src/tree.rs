//! The tree of a session's entries, and the overlays that show it.
use vstd::prelude::*;
use crate::chrome;
use crate::json;
use crate::json::{get_in, text_under, Json};
use crate::overlay;
use crate::overlay::{ItemView, OverlaySelection, SelectItem, SelectionView};
use crate::pieces;
use crate::pieces::{append_rule_line, Piece, PieceView};
use crate::screen;
use crate::screen::{style_dim, style_hint, style_subtitle, style_title, style_warning, truncate_to_width};
use crate::text;
use crate::text::{cat2, cat3, cat4, copy_opt, copy_text, join_texts, same, trimmed};
use crate::tools::JsonDoc;

verus! {

broadcast use {crate::text::group_texts, crate::pieces::group_pieces};

/// Which entries of the tree are shown.
#[derive(Clone, Copy, Debug, PartialEq, Eq, Structural)]
pub enum TreeFilterMode {
    Default,
    NoTools,
    UserOnly,
    LabeledOnly,
    All,
}

impl TreeFilterMode {
    /// The mode after this one.
    pub open spec fn following(self) -> TreeFilterMode {
        match self {
            TreeFilterMode::Default => TreeFilterMode::NoTools,
            TreeFilterMode::NoTools => TreeFilterMode::UserOnly,
            TreeFilterMode::UserOnly => TreeFilterMode::LabeledOnly,
            TreeFilterMode::LabeledOnly => TreeFilterMode::All,
            TreeFilterMode::All => TreeFilterMode::Default,
        }
    }

    /// The name of the mode.
    pub open spec fn name(self) -> Seq<char> {
        match self {
            TreeFilterMode::Default => "default"@,
            TreeFilterMode::NoTools => "no-tools"@,
            TreeFilterMode::UserOnly => "user-only"@,
            TreeFilterMode::LabeledOnly => "labeled-only"@,
            TreeFilterMode::All => "all"@,
        }
    }

    /// The mode after this one.
    pub fn next(self) -> (r: TreeFilterMode)
        ensures
            r == self.following(),
    {
        match self {
            TreeFilterMode::Default => TreeFilterMode::NoTools,
            TreeFilterMode::NoTools => TreeFilterMode::UserOnly,
            TreeFilterMode::UserOnly => TreeFilterMode::LabeledOnly,
            TreeFilterMode::LabeledOnly => TreeFilterMode::All,
            TreeFilterMode::All => TreeFilterMode::Default,
        }
    }

    /// The name of the mode.
    pub fn label(self) -> (r: &'static str)
        ensures
            r@ == self.name(),
    {
        match self {
            TreeFilterMode::Default => "default",
            TreeFilterMode::NoTools => "no-tools",
            TreeFilterMode::UserOnly => "user-only",
            TreeFilterMode::LabeledOnly => "labeled-only",
            TreeFilterMode::All => "all",
        }
    }
}

/// After five steps the modes begin anew, and not before.
pub proof fn filter_modes_go_round(mode: TreeFilterMode)
    ensures
        mode.following().following().following().following().following() == mode,
        mode.following() != mode,
        mode.following().following() != mode,
        mode.following().following().following() != mode,
        mode.following().following().following().following() != mode,
{
}

/// An entry of a session with the entries that follow it.
#[derive(Debug, PartialEq, Eq)]
pub struct TreeNode {
    pub entry: JsonDoc,
    pub label: Option<String>,
    pub children: Vec<TreeNode>,
}

/// An entry of the tree as it is listed.
#[derive(Clone, Debug, PartialEq, Eq)]
pub struct TreeListItem {
    pub entry_id: String,
    pub entry_type: String,
    pub message_role: Option<String>,
    pub assistant_tool_only: bool,
    pub preview: String,
    pub depth: usize,
    pub label: Option<String>,
}

/// An entry of the tree as it is listed, as a mathematical value.
pub struct TreeItemView {
    pub entry_id: Seq<char>,
    pub entry_type: Seq<char>,
    pub message_role: Option<Seq<char>>,
    pub assistant_tool_only: bool,
    pub preview: Seq<char>,
    pub depth: nat,
    pub label: Option<Seq<char>>,
}

impl View for TreeListItem {
    type V = TreeItemView;

    open spec fn view(&self) -> TreeItemView {
        TreeItemView {
            entry_id: self.entry_id@,
            entry_type: self.entry_type@,
            message_role: text::opt_text(self.message_role),
            assistant_tool_only: self.assistant_tool_only,
            preview: self.preview@,
            depth: self.depth as nat,
            label: text::opt_text(self.label),
        }
    }
}

/// Entries as they are listed, as mathematical values.
pub open spec fn item_views(list: Seq<TreeListItem>) -> Seq<TreeItemView> {
    Seq::new(list.len(), |i: int| list[i]@)
}

/// The text under a name, or another one where there is none.
pub open spec fn text_or(value: Option<Json>, key: Seq<char>, other: Seq<char>) -> Seq<char> {
    match json::text_in(json::member_of(value, key)) {
        Some(s) => s,
        None => other,
    }
}

fn text_under_or(value: Option<&Json>, key: &str, other: &str) -> (r: String)
    ensures
        r@ == text_or(json::referred(value), key@, other@),
{
    match text_under(value, key) {
        Some(s) => copy_text(s),
        None => copy_text(other),
    }
}

/// What is shown of a block of a message.
pub open spec fn block_preview(block: Json) -> Option<Seq<char>> {
    match json::text_in(json::member(block, "type"@)) {
        Some(kind) => if kind == "text"@ {
            json::text_in(json::member(block, "text"@))
        } else if kind == "thinking"@ {
            json::text_in(json::member(block, "thinking"@))
        } else if kind == "toolCall"@ {
            match json::text_in(json::member(block, "name"@)) {
                Some(name) => Some("tool:"@ + name),
                None => None,
            }
        } else if kind == "image"@ {
            match json::text_in(json::member(block, "mimeType"@)) {
                Some(mime) => Some("[image:"@ + mime + "]"@),
                None => None,
            }
        } else {
            None
        },
        None => None,
    }
}

/// What is shown of the blocks of a message.
pub open spec fn block_previews(blocks: Seq<Json>) -> Seq<Seq<char>>
    decreases blocks.len(),
{
    if blocks.len() == 0 {
        Seq::empty()
    } else {
        match block_preview(blocks.last()) {
            Some(s) => block_previews(blocks.drop_last()).push(s),
            None => block_previews(blocks.drop_last()),
        }
    }
}

/// What is shown of a message.
pub open spec fn message_preview(value: Json) -> Seq<char> {
    match json::member(value, "content"@) {
        Some(Json::Text(s)) => screen::cut(s@, 80),
        Some(Json::Array(blocks)) => text::join(block_previews(blocks@), " "@),
        _ => ""@,
    }
}

fn preview_block(block: &Json) -> (r: Option<String>)
    ensures
        text::opt_text(r) == block_preview(*block),
{
    let kind = match text_under(Some(block), "type") {
        Some(kind) => kind,
        None => {
            return None;
        },
    };
    if same(kind, "text") {
        match text_under(Some(block), "text") {
            Some(s) => Some(copy_text(s)),
            None => None,
        }
    } else if same(kind, "thinking") {
        match text_under(Some(block), "thinking") {
            Some(s) => Some(copy_text(s)),
            None => None,
        }
    } else if same(kind, "toolCall") {
        match text_under(Some(block), "name") {
            Some(name) => Some(cat2("tool:", name)),
            None => None,
        }
    } else if same(kind, "image") {
        match text_under(Some(block), "mimeType") {
            Some(mime) => Some(cat3("[image:", mime, "]")),
            None => None,
        }
    } else {
        None
    }
}

/// What is shown of a message: its text, or its blocks one after the other.
pub fn extract_message_preview(value: &Json) -> (r: String)
    ensures
        r@ == message_preview(*value),
{
    match value.get("content") {
        Some(Json::Text(s)) => truncate_to_width(s.as_str(), 80),
        Some(Json::Array(blocks)) => {
            let ghost all = blocks@;
            let mut parts: Vec<String> = Vec::new();
            let mut i: usize = 0;
            assert(all.take(0) =~= Seq::<Json>::empty());
            while i < blocks.len()
                invariant
                    0 <= i <= blocks.len(),
                    all == blocks@,
                    text::texts(parts@) == block_previews(all.take(i as int)),
                decreases blocks.len() - i,
            {
                assert(all.take(i + 1).drop_last() =~= all.take(i as int));
                if let Some(s) = preview_block(&blocks[i]) {
                    parts.push(s);
                }
                i += 1;
            }
            assert(all.take(i as int) =~= all);
            join_texts(parts.as_slice(), " ")
        },
        _ => copy_text(""),
    }
}

/// What is shown of an optional message.
pub open spec fn opt_preview(value: Option<Json>) -> Seq<char> {
    match value {
        Some(message) => message_preview(message),
        None => ""@,
    }
}

fn preview_of(value: Option<&Json>) -> (r: String)
    ensures
        r@ == opt_preview(json::referred(value)),
{
    match value {
        Some(message) => extract_message_preview(message),
        None => copy_text(""),
    }
}

/// What is shown of an entry.
pub open spec fn entry_preview(entry: JsonDoc) -> Seq<char> {
    let value = Some(entry.value);
    let kind = text_or(value, "type"@, "entry"@);
    if kind == "message"@ {
        let message = json::member(entry.value, "message"@);
        text_or(message, "role"@, "message"@) + ": "@ + opt_preview(message)
    } else if kind == "custom_message"@ {
        text_or(value, "customType"@, "custom"@) + ": "@ + opt_preview(
            json::member(entry.value, "content"@),
        )
    } else if kind == "branch_summary"@ {
        "branch: "@ + text_or(value, "summary"@, ""@)
    } else if kind == "compaction"@ {
        "compaction: "@ + text_or(value, "summary"@, ""@)
    } else if kind == "model_change"@ {
        "model: "@ + text_or(value, "provider"@, ""@) + "/"@ + text_or(value, "modelId"@, ""@)
    } else if kind == "thinking_level_change"@ {
        "thinking: "@ + text_or(value, "thinkingLevel"@, ""@)
    } else {
        entry.raw@
    }
}

/// What is shown of an entry.
pub fn tree_entry_preview(entry: &JsonDoc) -> (r: String)
    ensures
        r@ == entry_preview(*entry),
{
    let value = Some(&entry.value);
    let kind = text_under_or(value, "type", "entry");
    if same(kind.as_str(), "message") {
        let message = entry.value.get("message");
        return cat3(
            text_under_or(message, "role", "message").as_str(),
            ": ",
            preview_of(message).as_str(),
        );
    }
    if same(kind.as_str(), "custom_message") {
        return cat3(
            text_under_or(value, "customType", "custom").as_str(),
            ": ",
            preview_of(entry.value.get("content")).as_str(),
        );
    }
    if same(kind.as_str(), "branch_summary") {
        return cat2("branch: ", text_under_or(value, "summary", "").as_str());
    }
    if same(kind.as_str(), "compaction") {
        return cat2("compaction: ", text_under_or(value, "summary", "").as_str());
    }
    if same(kind.as_str(), "model_change") {
        return cat4(
            "model: ",
            text_under_or(value, "provider", "").as_str(),
            "/",
            text_under_or(value, "modelId", "").as_str(),
        );
    }
    if same(kind.as_str(), "thinking_level_change") {
        return cat2("thinking: ", text_under_or(value, "thinkingLevel", "").as_str());
    }
    copy_text(entry.raw.as_str())
}

/// Whether a block calls a tool.
pub open spec fn is_call(block: Json) -> bool {
    json::text_in(json::member(block, "type"@)) == Some("toolCall"@)
}

/// Whether a message is made of calls of tools alone.
pub open spec fn calls_only(message: Option<Json>) -> bool {
    match json::member_of(message, "content"@) {
        Some(Json::Array(blocks)) => blocks@.len() > 0 && forall|i: int|
            0 <= i < blocks@.len() ==> is_call(#[trigger] blocks@[i]),
        _ => false,
    }
}

fn all_calls(blocks: &Vec<Json>) -> (r: bool)
    ensures
        r == (forall|i: int| 0 <= i < blocks@.len() ==> is_call(#[trigger] blocks@[i])),
{
    let mut i: usize = 0;
    while i < blocks.len()
        invariant
            0 <= i <= blocks.len(),
            forall|j: int| 0 <= j < i ==> is_call(#[trigger] blocks@[j]),
        decreases blocks.len() - i,
    {
        let call = match text_under(Some(&blocks[i]), "type") {
            Some(kind) => same(kind, "toolCall"),
            None => false,
        };
        if !call {
            assert(!is_call(blocks@[i as int]));
            return false;
        }
        i += 1;
    }
    true
}

fn only_calls(message: Option<&Json>) -> (r: bool)
    ensures
        r == calls_only(json::referred(message)),
{
    match get_in(message, "content") {
        Some(Json::Array(blocks)) => blocks.len() > 0 && all_calls(blocks),
        _ => false,
    }
}

/// An entry as it is listed.
pub open spec fn listed(node: TreeNode, depth: nat) -> TreeItemView {
    let value = Some(node.entry.value);
    let message = json::member(node.entry.value, "message"@);
    TreeItemView {
        entry_id: text_or(value, "id"@, ""@),
        entry_type: text_or(value, "type"@, "entry"@),
        message_role: json::text_in(json::member_of(message, "role"@)),
        assistant_tool_only: calls_only(message),
        preview: entry_preview(node.entry),
        depth,
        label: text::opt_text(node.label),
    }
}

/// A tree as a list: each entry with those that follow it below, one deeper.
pub open spec fn flat(nodes: Seq<TreeNode>, depth: nat) -> Seq<TreeItemView>
    decreases nodes,
{
    if nodes.len() == 0 {
        Seq::empty()
    } else {
        flat(nodes.drop_last(), depth).push(listed(nodes.last(), depth)) + flat(
            nodes.last().children@,
            depth + 1,
        )
    }
}

/// How deep a tree is.
pub open spec fn tree_height(nodes: Seq<TreeNode>) -> nat
    decreases nodes,
{
    if nodes.len() == 0 {
        0
    } else {
        let above = tree_height(nodes.drop_last());
        let below = 1 + tree_height(nodes.last().children@);
        if above < below {
            below
        } else {
            above
        }
    }
}

fn list_node(node: &TreeNode, depth: usize) -> (r: TreeListItem)
    ensures
        r@ == listed(*node, depth as nat),
{
    let value = Some(&node.entry.value);
    let message = node.entry.value.get("message");
    TreeListItem {
        entry_id: text_under_or(value, "id", ""),
        entry_type: text_under_or(value, "type", "entry"),
        message_role: match text_under(message, "role") {
            Some(role) => Some(copy_text(role)),
            None => None,
        },
        assistant_tool_only: only_calls(message),
        preview: tree_entry_preview(&node.entry),
        depth,
        label: copy_opt(&node.label),
    }
}

proof fn height_of_part(nodes: Seq<TreeNode>, i: int)
    requires
        0 <= i < nodes.len(),
    ensures
        1 + tree_height(nodes[i].children@) <= tree_height(nodes),
    decreases nodes.len(),
{
    if i < nodes.len() - 1 {
        height_of_part(nodes.drop_last(), i);
    }
}

/// A tree as a list: each entry with those that follow it below, one deeper.
pub fn flatten_tree_items(nodes: &Vec<TreeNode>, depth: usize) -> (r: Vec<TreeListItem>)
    requires
        depth + tree_height(nodes@) <= usize::MAX,
    ensures
        item_views(r@) == flat(nodes@, depth as nat),
    decreases nodes,
{
    let ghost all = nodes@;
    let mut out: Vec<TreeListItem> = Vec::new();
    let mut i: usize = 0;
    assert(all.take(0) =~= Seq::<TreeNode>::empty());
    assert(item_views(out@) =~= Seq::<TreeItemView>::empty());
    while i < nodes.len()
        invariant
            0 <= i <= nodes.len(),
            all == nodes@,
            depth + tree_height(nodes@) <= usize::MAX,
            item_views(out@) == flat(all.take(i as int), depth as nat),
        decreases nodes.len() - i,
    {
        assert(all.take(i + 1).drop_last() =~= all.take(i as int));
        proof {
            height_of_part(all, i as int);
        }
        let ghost before = out@;
        let item = list_node(&nodes[i], depth);
        out.push(item);
        assert(item_views(out@) =~= item_views(before).push(item@));
        assert(decreases_to!(nodes => nodes@[i as int].children));
        let mut below = flatten_tree_items(&nodes[i].children, depth + 1);
        let ghost middle = out@;
        let ghost lower = below@;
        out.append(&mut below);
        assert(item_views(out@) =~= item_views(middle) + item_views(lower));
        i += 1;
    }
    assert(all.take(i as int) =~= all);
    out
}

/// Whether an entry only records a change or a mark.
pub open spec fn is_record(kind: Seq<char>) -> bool {
    kind == "label"@ || kind == "custom"@ || kind == "model_change"@ || kind
        == "thinking_level_change"@
}

/// Whether an entry is an answer that only calls tools.
pub open spec fn is_call_answer(item: TreeItemView) -> bool {
    item.message_role == Some("assistant"@) && item.assistant_tool_only
}

/// Whether an entry is shown in a mode.
pub open spec fn shown_in(item: TreeItemView, mode: TreeFilterMode) -> bool {
    match mode {
        TreeFilterMode::Default => !is_record(item.entry_type) && !is_call_answer(item),
        TreeFilterMode::NoTools => !is_record(item.entry_type) && item.message_role != Some(
            "toolResult"@,
        ) && !is_call_answer(item),
        TreeFilterMode::UserOnly => item.entry_type == "message"@ && item.message_role == Some(
            "user"@,
        ),
        TreeFilterMode::LabeledOnly => item.label is Some,
        TreeFilterMode::All => true,
    }
}

fn has_role(item: &TreeListItem, role: &str) -> (r: bool)
    ensures
        r == (item@.message_role == Some(role@)),
{
    match &item.message_role {
        Some(r) => same(r.as_str(), role),
        None => false,
    }
}

fn record(kind: &str) -> (r: bool)
    ensures
        r == is_record(kind@),
{
    same(kind, "label") || same(kind, "custom") || same(kind, "model_change") || same(
        kind,
        "thinking_level_change",
    )
}

/// Whether an entry is shown in a mode.
pub fn tree_item_matches_mode(item: &TreeListItem, filter_mode: TreeFilterMode) -> (r: bool)
    ensures
        r == shown_in(item@, filter_mode),
{
    match filter_mode {
        TreeFilterMode::Default => !record(item.entry_type.as_str()) && !(has_role(
            item,
            "assistant",
        ) && item.assistant_tool_only),
        TreeFilterMode::NoTools => !record(item.entry_type.as_str()) && !has_role(
            item,
            "toolResult",
        ) && !(has_role(item, "assistant") && item.assistant_tool_only),
        TreeFilterMode::UserOnly => same(item.entry_type.as_str(), "message") && has_role(
            item,
            "user",
        ),
        TreeFilterMode::LabeledOnly => item.label.is_some(),
        TreeFilterMode::All => true,
    }
}

/// Each mode shows less than the next of these: the messages of the user, all without the results of
/// tools, the usual entries, all entries. What has a label is among all entries.
pub proof fn modes_show_less_and_less(item: TreeItemView)
    ensures
        shown_in(item, TreeFilterMode::UserOnly) ==> shown_in(item, TreeFilterMode::NoTools),
        shown_in(item, TreeFilterMode::NoTools) ==> shown_in(item, TreeFilterMode::Default),
        shown_in(item, TreeFilterMode::Default) ==> shown_in(item, TreeFilterMode::All),
        shown_in(item, TreeFilterMode::LabeledOnly) ==> shown_in(item, TreeFilterMode::All),
{
    reveal_strlit("message");
    reveal_strlit("label");
    reveal_strlit("custom");
    reveal_strlit("model_change");
    reveal_strlit("thinking_level_change");
    reveal_strlit("user");
    reveal_strlit("assistant");
    reveal_strlit("toolResult");
    assert("message"@[0] != "label"@[0]);
    assert("message"@[0] != "custom"@[0]);
    assert("message"@[1] != "model_change"@[1]);
    assert("message"@[0] != "thinking_level_change"@[0]);
    assert("user"@[0] != "assistant"@[0]);
    assert("user"@[0] != "toolResult"@[0]);
}

/// The lines that lead to an entry.
pub open spec fn branch(depth: nat) -> Seq<char> {
    if depth == 0 {
        ""@
    } else {
        text::repeated(' ', (3 * (depth - 1)) as nat) + "└─ "@
    }
}

/// An entry as an item of the list.
pub open spec fn tree_item(item: TreeItemView, leaf: Option<Seq<char>>, mode: TreeFilterMode) -> ItemView {
    ItemView {
        value: item.entry_id,
        label: (if leaf == Some(item.entry_id) {
            screen::warning("• "@)
        } else {
            "  "@
        }) + screen::dim(branch(item.depth)) + screen::cut(item.preview, 58) + (match item.label {
            Some(label) => " "@ + screen::warning("["@ + label + "]"@),
            None => ""@,
        }),
        description: Some("["@ + mode.name() + "]"@),
    }
}

/// The entries that are shown in a mode.
pub open spec fn filtered(all: Seq<TreeItemView>, mode: TreeFilterMode) -> Seq<TreeItemView>
    decreases all.len(),
{
    if all.len() == 0 {
        Seq::empty()
    } else if shown_in(all.last(), mode) {
        filtered(all.drop_last(), mode).push(all.last())
    } else {
        filtered(all.drop_last(), mode)
    }
}

/// Entries as items of the list.
pub open spec fn tree_items(list: Seq<TreeItemView>, leaf: Option<Seq<char>>, mode: TreeFilterMode) -> Seq<
    ItemView,
> {
    Seq::new(list.len(), |i: int| tree_item(list[i], leaf, mode))
}

/// What the choice of each entry stands for.
pub open spec fn tree_selections(list: Seq<TreeItemView>) -> Seq<SelectionView> {
    Seq::new(
        list.len(),
        |i: int|
            SelectionView::Tree { tree_entry_id: list[i].entry_id, label: list[i].label },
    )
}

fn branch_text(depth: usize) -> (r: String)
    ensures
        r@ == branch(depth as nat),
{
    if depth == 0 {
        return copy_text("");
    }
    let mut out = copy_text("");
    let mut i: usize = 0;
    proof {
        reveal_strlit("");
        reveal_strlit("   ");
    }
    assert(out@ =~= text::repeated(' ', 0));
    while i < depth - 1
        invariant
            0 < depth,
            0 <= i <= depth - 1,
            out@ == text::repeated(' ', (3 * i) as nat),
        decreases depth - i,
    {
        proof {
            reveal_strlit("   ");
        }
        let ghost before = out@;
        out = cat2(out.as_str(), "   ");
        i += 1;
        assert(out@ =~= text::repeated(' ', (3 * i) as nat));
    }
    cat2(out.as_str(), "└─ ")
}

fn item_of(item: &TreeListItem, current_leaf: Option<&str>, mode: TreeFilterMode) -> (r: SelectItem)
    ensures
        r@ == tree_item(item@, chrome::opt_str(current_leaf), mode),
{
    let is_leaf = match current_leaf {
        Some(leaf) => same(leaf, item.entry_id.as_str()),
        None => false,
    };
    let marker = if is_leaf {
        style_warning("• ")
    } else {
        copy_text("  ")
    };
    let label = match &item.label {
        Some(label) => cat2(" ", style_warning(cat3("[", label.as_str(), "]").as_str()).as_str()),
        None => copy_text(""),
    };
    SelectItem {
        value: copy_text(item.entry_id.as_str()),
        label: cat4(
            marker.as_str(),
            style_dim(branch_text(item.depth).as_str()).as_str(),
            truncate_to_width(item.preview.as_str(), 58).as_str(),
            label.as_str(),
        ),
        description: Some(cat3("[", mode.label(), "]")),
    }
}

/// The entries of a tree that are shown in a mode as items of the list, and what the choice of each
/// stands for.
pub fn build_tree_overlay_items(
    nodes: &Vec<TreeNode>,
    current_leaf: Option<&str>,
    filter_mode: TreeFilterMode,
) -> (r: (Vec<SelectItem>, Vec<OverlaySelection>))
    requires
        tree_height(nodes@) <= usize::MAX,
    ensures
        overlay::items(r.0@) == tree_items(
            filtered(flat(nodes@, 0), filter_mode),
            chrome::opt_str(current_leaf),
            filter_mode,
        ),
        overlay::selections(r.1@) == tree_selections(filtered(flat(nodes@, 0), filter_mode)),
{
    let list = flatten_tree_items(nodes, 0);
    let ghost all = item_views(list@);
    let ghost leaf = chrome::opt_str(current_leaf);
    let mut items: Vec<SelectItem> = Vec::new();
    let mut selections: Vec<OverlaySelection> = Vec::new();
    let mut i: usize = 0;
    assert(all.take(0) =~= Seq::<TreeItemView>::empty());
    assert(overlay::items(items@) =~= tree_items(filtered(all.take(0), filter_mode), leaf, filter_mode));
    assert(overlay::selections(selections@) =~= tree_selections(filtered(all.take(0), filter_mode)));
    while i < list.len()
        invariant
            0 <= i <= list.len(),
            all == item_views(list@),
            leaf == chrome::opt_str(current_leaf),
            overlay::items(items@) == tree_items(
                filtered(all.take(i as int), filter_mode),
                leaf,
                filter_mode,
            ),
            overlay::selections(selections@) == tree_selections(
                filtered(all.take(i as int), filter_mode),
            ),
        decreases list.len() - i,
    {
        assert(all.take(i + 1).drop_last() =~= all.take(i as int));
        if tree_item_matches_mode(&list[i], filter_mode) {
            let ghost kept = filtered(all.take(i as int), filter_mode);
            let ghost items_before = items@;
            let ghost selections_before = selections@;
            let item = item_of(&list[i], current_leaf, filter_mode);
            let ghost shown = item@;
            items.push(item);
            let selection = OverlaySelection::Tree {
                tree_entry_id: copy_text(list[i].entry_id.as_str()),
                label: copy_opt(&list[i].label),
            };
            let ghost meant = selection@;
            selections.push(selection);
            assert(overlay::items(items@) =~= overlay::items(items_before).push(shown));
            assert(overlay::selections(selections@) =~= overlay::selections(selections_before).push(
                meant,
            ));
            assert(tree_items(kept.push(list@[i as int]@), leaf, filter_mode) =~= tree_items(
                kept,
                leaf,
                filter_mode,
            ).push(shown));
            assert(tree_selections(kept.push(list@[i as int]@)) =~= tree_selections(kept).push(
                meant,
            ));
        }
        i += 1;
    }
    assert(all.take(i as int) =~= all);
    (items, selections)
}

/// What an overlay with a list and a field is for.
#[derive(Clone, Copy, Debug, PartialEq, Eq, Structural)]
pub enum SearchOverlayKind {
    Tree,
    OAuthLogin,
    OAuthLogout,
}

/// The texts of a search overlay, and what stands in its field.
#[derive(Clone, Debug, PartialEq, Eq)]
pub struct SearchTexts {
    pub subtitle: String,
    pub detail: Option<String>,
    pub hint: String,
    pub search_visible: bool,
    pub search_value: String,
}

/// A text in a style, where it is not blank.
pub open spec fn flow_unless_blank(s: Seq<char>, shown: Seq<char>) -> Seq<PieceView> {
    if text::trim(s).len() > 0 {
        seq![PieceView::Flow(shown)]
    } else {
        Seq::empty()
    }
}

/// The line in which the tree is searched.
pub open spec fn tree_search_line(value: Seq<char>, mode: Option<TreeFilterMode>) -> Seq<char> {
    "Type to search: "@ + value + (match mode {
        Some(m) => if m != TreeFilterMode::Default {
            " "@ + screen::hint("["@ + m.name() + "]"@)
        } else {
            ""@
        },
        None => ""@,
    })
}

/// The overlay of the tree.
pub open spec fn tree_shell(texts: SearchTexts, mode: Option<TreeFilterMode>, width: nat) -> Seq<PieceView> {
    pieces::rule(width) + seq![
        PieceView::Blank,
        PieceView::Flow(screen::title("Session Tree"@)),
    ] + flow_unless_blank(texts.hint@, screen::hint(texts.hint@)) + seq![
        PieceView::Flow(screen::cut(tree_search_line(texts.search_value@, mode), width)),
        PieceView::Blank,
        PieceView::List(false),
        PieceView::Blank,
    ] + pieces::rule(width)
}

/// The title of a search overlay.
pub open spec fn search_title(kind: SearchOverlayKind) -> Seq<char> {
    match kind {
        SearchOverlayKind::Tree => "Session Tree"@,
        SearchOverlayKind::OAuthLogin => "Select provider to login:"@,
        SearchOverlayKind::OAuthLogout => "Select provider to logout:"@,
    }
}

/// A hint below the rest, where it is not blank.
pub open spec fn hint_below(hint: Seq<char>) -> Seq<PieceView> {
    if text::trim(hint).len() > 0 {
        seq![PieceView::Blank, PieceView::Flow(screen::hint(hint))]
    } else {
        Seq::empty()
    }
}

/// The field, where it is visible.
pub open spec fn field_above(visible: bool) -> Seq<PieceView> {
    if visible {
        seq![PieceView::Field(false), PieceView::Blank]
    } else {
        Seq::empty()
    }
}

/// The mode in brackets, where there is one.
pub open spec fn mode_note(mode: Option<TreeFilterMode>) -> Seq<PieceView> {
    match mode {
        Some(m) => seq![PieceView::Flow(screen::hint("["@ + m.name() + "]"@))],
        None => Seq::empty(),
    }
}

/// A detail below the rest, where there is one and it is wanted.
pub open spec fn detail_below(detail: Option<Seq<char>>, wanted: bool) -> Seq<PieceView> {
    if wanted && detail is Some {
        seq![PieceView::Blank, PieceView::Flow(screen::subtitle(detail->0))]
    } else {
        Seq::empty()
    }
}

/// A search overlay.
pub open spec fn search_shell(
    kind: SearchOverlayKind,
    texts: SearchTexts,
    mode: Option<TreeFilterMode>,
    width: nat,
) -> Seq<PieceView> {
    if kind == SearchOverlayKind::Tree {
        tree_shell(texts, mode, width)
    } else {
        pieces::rule(width) + seq![
            PieceView::Blank,
            PieceView::Flow(screen::title(search_title(kind))),
        ] + flow_unless_blank(texts.subtitle@, screen::subtitle(texts.subtitle@))
            + mode_note(mode) + seq![PieceView::Blank] + field_above(texts.search_visible) + seq![
            PieceView::List(false),
        ] + detail_below(text::opt_text(texts.detail), mode is None) + hint_below(texts.hint@) + seq![PieceView::Blank] + pieces::rule(width)
    }
}

fn blank(s: &str) -> (r: bool)
    ensures
        r == (text::trim(s@).len() == 0),
{
    trimmed(s).as_str().is_empty()
}

fn push_unless_blank(out: &mut Vec<Piece>, s: &str, shown: String)
    ensures
        pieces::views(final(out)@) == pieces::views(old(out)@) + flow_unless_blank(s@, shown@),
{
    let ghost before = pieces::views(out@);
    if !blank(s) {
        out.push(Piece::Flow(shown));
    }
    assert(pieces::views(out@) =~= before + flow_unless_blank(s@, shown@));
}

fn push_mode(out: &mut Vec<Piece>, mode: Option<TreeFilterMode>)
    ensures
        pieces::views(final(out)@) == pieces::views(old(out)@) + mode_note(mode),
{
    let ghost before = pieces::views(out@);
    if let Some(m) = mode {
        out.push(Piece::Flow(style_hint(cat3("[", m.label(), "]").as_str())));
    }
    assert(pieces::views(out@) =~= before + mode_note(mode));
}

fn push_field(out: &mut Vec<Piece>, visible: bool)
    ensures
        pieces::views(final(out)@) == pieces::views(old(out)@) + field_above(visible),
{
    let ghost before = pieces::views(out@);
    if visible {
        out.push(Piece::Field(false));
        out.push(Piece::Blank);
    }
    assert(pieces::views(out@) =~= before + field_above(visible));
}

fn push_detail(out: &mut Vec<Piece>, detail: &Option<String>, wanted: bool)
    ensures
        pieces::views(final(out)@) == pieces::views(old(out)@) + detail_below(
            text::opt_text(*detail),
            wanted,
        ),
{
    let ghost before = pieces::views(out@);
    if wanted {
        if let Some(s) = detail {
            out.push(Piece::Blank);
            out.push(Piece::Flow(style_subtitle(s.as_str())));
        }
    }
    assert(pieces::views(out@) =~= before + detail_below(text::opt_text(*detail), wanted));
}

fn push_hint(out: &mut Vec<Piece>, hint: &str)
    ensures
        pieces::views(final(out)@) == pieces::views(old(out)@) + hint_below(hint@),
{
    let ghost before = pieces::views(out@);
    if !blank(hint) {
        out.push(Piece::Blank);
        out.push(Piece::Flow(style_hint(hint)));
    }
    assert(pieces::views(out@) =~= before + hint_below(hint@));
}

fn render_tree_overlay_shell(texts: &SearchTexts, tree_filter: Option<TreeFilterMode>, width: u16) -> (r:
    Vec<Piece>)
    ensures
        pieces::views(r@) == tree_shell(*texts, tree_filter, width as nat),
{
    let mut out: Vec<Piece> = Vec::new();
    append_rule_line(&mut out, width);
    out.push(Piece::Blank);
    out.push(Piece::Flow(style_title("Session Tree")));
    push_unless_blank(&mut out, texts.hint.as_str(), style_hint(texts.hint.as_str()));
    let tail = match tree_filter {
        Some(mode) => if mode != TreeFilterMode::Default {
            cat2(" ", style_hint(cat3("[", mode.label(), "]").as_str()).as_str())
        } else {
            copy_text("")
        },
        None => copy_text(""),
    };
    let line = cat3("Type to search: ", texts.search_value.as_str(), tail.as_str());
    out.push(Piece::Flow(truncate_to_width(line.as_str(), width as usize)));
    out.push(Piece::Blank);
    out.push(Piece::List(false));
    out.push(Piece::Blank);
    append_rule_line(&mut out, width);
    assert(pieces::views(out@) =~= tree_shell(*texts, tree_filter, width as nat));
    out
}

/// A search overlay.
pub fn render_search_overlay_shell(
    kind: SearchOverlayKind,
    texts: &SearchTexts,
    tree_filter: Option<TreeFilterMode>,
    width: u16,
) -> (r: Vec<Piece>)
    ensures
        pieces::views(r@) == search_shell(kind, *texts, tree_filter, width as nat),
{
    let title = match kind {
        SearchOverlayKind::Tree => {
            return render_tree_overlay_shell(texts, tree_filter, width);
        },
        SearchOverlayKind::OAuthLogin => "Select provider to login:",
        SearchOverlayKind::OAuthLogout => "Select provider to logout:",
    };
    let mut out: Vec<Piece> = Vec::new();
    append_rule_line(&mut out, width);
    out.push(Piece::Blank);
    out.push(Piece::Flow(style_title(title)));
    push_unless_blank(&mut out, texts.subtitle.as_str(), style_subtitle(texts.subtitle.as_str()));
    push_mode(&mut out, tree_filter);
    out.push(Piece::Blank);
    push_field(&mut out, texts.search_visible);
    out.push(Piece::List(false));
    push_detail(&mut out, &texts.detail, tree_filter.is_none());
    push_hint(&mut out, texts.hint.as_str());
    out.push(Piece::Blank);
    append_rule_line(&mut out, width);
    assert(pieces::views(out@) =~= search_shell(kind, *texts, tree_filter, width as nat));
    out
}

/// A search overlay with a banner.
pub open spec fn search_overlay(title: Seq<char>, texts: SearchTexts, width: nat) -> Seq<PieceView> {
    pieces::banner(title, texts.subtitle@, width) + seq![PieceView::Blank] + field_above(
        texts.search_visible,
    ) + seq![PieceView::List(false)] + detail_below(text::opt_text(texts.detail), true) + seq![
        PieceView::Blank, PieceView::Flow(screen::hint(texts.hint@))]
}

/// A search overlay with a banner.
pub fn render_search_overlay(title: &str, texts: &SearchTexts, width: u16) -> (r: Vec<Piece>)
    ensures
        pieces::views(r@) == search_overlay(title@, *texts, width as nat),
{
    let mut out: Vec<Piece> = Vec::new();
    pieces::append_overlay_banner(&mut out, title, texts.subtitle.as_str(), width);
    out.push(Piece::Blank);
    push_field(&mut out, texts.search_visible);
    out.push(Piece::List(false));
    push_detail(&mut out, &texts.detail, true);
    out.push(Piece::Blank);
    out.push(Piece::Flow(style_hint(texts.hint.as_str())));
    assert(pieces::views(out@) =~= search_overlay(title@, *texts, width as nat));
    out
}

/// The overlay that asks whether a branch is to be summarized.
pub open spec fn summary_overlay(title: Seq<char>, hint: Seq<char>, width: nat) -> Seq<PieceView> {
    pieces::rule(width) + seq![
        PieceView::Blank,
        PieceView::Flow(screen::title(title)),
        PieceView::Blank,
        PieceView::List(true),
        PieceView::Blank,
        PieceView::Flow(screen::hint(hint)),
        PieceView::Blank,
    ] + pieces::rule(width)
}

/// The overlay that asks whether a branch is to be summarized.
pub fn render_tree_summary_overlay(title: &str, hint: &str, width: u16) -> (r: Vec<Piece>)
    ensures
        pieces::views(r@) == summary_overlay(title@, hint@, width as nat),
{
    let mut out: Vec<Piece> = Vec::new();
    append_rule_line(&mut out, width);
    out.push(Piece::Blank);
    out.push(Piece::Flow(style_title(title)));
    out.push(Piece::Blank);
    out.push(Piece::List(true));
    out.push(Piece::Blank);
    out.push(Piece::Flow(style_hint(hint)));
    out.push(Piece::Blank);
    append_rule_line(&mut out, width);
    assert(pieces::views(out@) =~= summary_overlay(title@, hint@, width as nat));
    out
}

/// How many entries a tree has: each of the first ones, with what is below it.
pub open spec fn tree_size(nodes: Seq<TreeNode>) -> nat
    decreases nodes,
{
    if nodes.len() == 0 {
        0
    } else {
        1 + tree_size(nodes[0].children@) + tree_size(nodes.subrange(1, nodes.len() as int))
    }
}

/// Two sequences of entries one after the other are listed one after the other.
pub proof fn flat_in_two(a: Seq<TreeNode>, b: Seq<TreeNode>, depth: nat)
    ensures
        flat(a + b, depth) == flat(a, depth) + flat(b, depth),
    decreases b.len(),
{
    if b.len() == 0 {
        assert(a + b =~= a);
        assert(flat(a, depth) + flat(b, depth) =~= flat(a, depth));
    } else {
        flat_in_two(a, b.drop_last(), depth);
        assert((a + b).drop_last() =~= a + b.drop_last());
        assert((a + b).last() == b.last());
        assert(flat(a + b, depth) =~= flat(a, depth) + flat(b, depth));
    }
}

/// An entry stands directly before the list of its children, which are one deeper.
pub proof fn flat_of_one(node: TreeNode, depth: nat)
    ensures
        flat(seq![node], depth) == seq![listed(node, depth)] + flat(node.children@, depth + 1),
{
    let none = Seq::<TreeNode>::empty();
    assert(seq![node].drop_last() =~= none);
    assert(flat(none, depth) =~= Seq::<TreeItemView>::empty());
    assert(seq![node].last() == node);
    assert(flat(seq![node], depth) =~= seq![listed(node, depth)] + flat(
        node.children@,
        depth + 1,
    ));
}

/// A tree is listed with its first entry, what is below it, and then the other entries.
pub proof fn flat_from_the_first(nodes: Seq<TreeNode>, depth: nat)
    requires
        nodes.len() > 0,
    ensures
        flat(nodes, depth) == seq![listed(nodes[0], depth)] + flat(nodes[0].children@, depth + 1)
            + flat(nodes.subrange(1, nodes.len() as int), depth),
{
    let rest = nodes.subrange(1, nodes.len() as int);
    assert(nodes =~= seq![nodes[0]] + rest);
    flat_in_two(seq![nodes[0]], rest, depth);
    flat_of_one(nodes[0], depth);
}

/// Every entry of a tree is listed exactly once: the list is as long as the tree has entries.
pub proof fn every_entry_is_listed_once(nodes: Seq<TreeNode>, depth: nat)
    ensures
        flat(nodes, depth).len() == tree_size(nodes),
    decreases nodes,
{
    if nodes.len() > 0 {
        flat_from_the_first(nodes, depth);
        every_entry_is_listed_once(nodes[0].children@, depth + 1);
        every_entry_is_listed_once(nodes.subrange(1, nodes.len() as int), depth);
    }
}

/// The sequence of entries that a path leads to: each step takes the children of one entry.
pub open spec fn entries_at(nodes: Seq<TreeNode>, path: Seq<int>) -> Seq<TreeNode>
    decreases path.len(),
{
    if path.len() == 0 {
        nodes
    } else {
        entries_at(nodes[path[0]].children@, path.subrange(1, path.len() as int))
    }
}

/// Whether each step of a path takes an entry that is there.
pub open spec fn is_path(nodes: Seq<TreeNode>, path: Seq<int>) -> bool
    decreases path.len(),
{
    path.len() > 0 ==> 0 <= path[0] < nodes.len() && is_path(
        nodes[path[0]].children@,
        path.subrange(1, path.len() as int),
    )
}

/// The list of the children of an entry is part of the list of the entries.
proof fn children_are_part(nodes: Seq<TreeNode>, i: int, depth: nat) -> (place: int)
    requires
        0 <= i < nodes.len(),
    ensures
        0 <= place < flat(nodes, depth).len(),
        flat(nodes, depth)[place] == listed(nodes[i], depth),
        place + 1 + flat(nodes[i].children@, depth + 1).len() <= flat(nodes, depth).len(),
        flat(nodes, depth).subrange(
            place + 1,
            place + 1 + flat(nodes[i].children@, depth + 1).len(),
        ) == flat(nodes[i].children@, depth + 1),
{
    let before = nodes.subrange(0, i);
    let behind = nodes.subrange(i + 1, nodes.len() as int);
    let one = seq![nodes[i]];
    assert(nodes =~= before + (one + behind));
    flat_in_two(before, one + behind, depth);
    flat_in_two(one, behind, depth);
    flat_of_one(nodes[i], depth);
    let place = flat(before, depth).len() as int;
    let below = flat(nodes[i].children@, depth + 1);
    assert(flat(nodes, depth).subrange(place + 1, place + 1 + below.len()) =~= below);
    place
}

/// An entry however deep in a tree is listed, as deep as the path to it is long, and directly before
/// the list of its children.
pub proof fn deep_entries_are_listed(nodes: Seq<TreeNode>, path: Seq<int>, i: int, depth: nat) -> (place: int)
    requires
        is_path(nodes, path),
        0 <= i < entries_at(nodes, path).len(),
    ensures
        0 <= place < flat(nodes, depth).len(),
        flat(nodes, depth)[place] == listed(entries_at(nodes, path)[i], depth + path.len()),
        place + 1 + flat(entries_at(nodes, path)[i].children@, depth + path.len() + 1).len() <= flat(
            nodes,
            depth,
        ).len(),
        flat(nodes, depth).subrange(
            place + 1,
            place + 1 + flat(entries_at(nodes, path)[i].children@, depth + path.len() + 1).len(),
        ) == flat(entries_at(nodes, path)[i].children@, depth + path.len() + 1),
    decreases path.len(),
{
    if path.len() == 0 {
        children_are_part(nodes, i, depth)
    } else {
        let rest = path.subrange(1, path.len() as int);
        let lower = nodes[path[0]].children@;
        let outer = children_are_part(nodes, path[0], depth);
        let inner = deep_entries_are_listed(lower, rest, i, depth + 1);
        let place = outer + 1 + inner;
        let list = flat(lower, depth + 1);
        let all = flat(nodes, depth);
        let below = flat(entries_at(nodes, path)[i].children@, depth + path.len() + 1);
        let part = all.subrange(outer + 1, outer + 1 + list.len());
        assert(part[inner] == list[inner]);
        assert(all.subrange(place + 1, place + 1 + below.len()) =~= part.subrange(
            inner + 1,
            inner + 1 + below.len(),
        ));
        place
    }
}

/// In the mode that shows all, every entry of a tree can be seen and chosen.
pub proof fn all_entries_can_be_chosen(nodes: Seq<TreeNode>, leaf: Option<Seq<char>>)
    ensures
        filtered(flat(nodes, 0), TreeFilterMode::All) == flat(nodes, 0),
        tree_items(filtered(flat(nodes, 0), TreeFilterMode::All), leaf, TreeFilterMode::All).len()
            == tree_size(nodes),
        tree_selections(filtered(flat(nodes, 0), TreeFilterMode::All)).len() == tree_size(nodes),
{
    all_are_kept(flat(nodes, 0));
    every_entry_is_listed_once(nodes, 0);
}

proof fn all_are_kept(list: Seq<TreeItemView>)
    ensures
        filtered(list, TreeFilterMode::All) == list,
    decreases list.len(),
{
    if list.len() > 0 {
        all_are_kept(list.drop_last());
        assert(list.drop_last().push(list.last()) =~= list);
    }
}

/// Whether a mode shows one entry does not depend on the others, and the entries stay in order.
pub proof fn filtered_in_two(a: Seq<TreeItemView>, b: Seq<TreeItemView>, mode: TreeFilterMode)
    ensures
        filtered(a + b, mode) == filtered(a, mode) + filtered(b, mode),
    decreases b.len(),
{
    if b.len() == 0 {
        assert(a + b =~= a);
        assert(filtered(a, mode) + filtered(b, mode) =~= filtered(a, mode));
    } else {
        filtered_in_two(a, b.drop_last(), mode);
        assert((a + b).drop_last() =~= a + b.drop_last());
        assert(filtered(a + b, mode) =~= filtered(a, mode) + filtered(b, mode));
    }
}

/// Messages of the user are shown in every mode but the one for labels; results of tools not where
/// tools are left out; answers that only call tools, and records of changes, only among all entries.
/// What has a label is shown where labels are asked for, and nothing else is.
pub proof fn modes_keep_what_they_name(item: TreeItemView, mode: TreeFilterMode)
    ensures
        item.entry_type == "message"@ && item.message_role == Some("user"@) && mode
            != TreeFilterMode::LabeledOnly ==> filtered(seq![item], mode) == seq![item],
        item.entry_type == "message"@ && item.message_role == Some("toolResult"@) && (mode
            == TreeFilterMode::NoTools || mode == TreeFilterMode::UserOnly) ==> filtered(
            seq![item],
            mode,
        ).len() == 0,
        item.entry_type == "message"@ && item.message_role == Some("toolResult"@) && mode
            == TreeFilterMode::Default ==> filtered(seq![item], mode) == seq![item],
        item.entry_type == "message"@ && item.message_role == Some("assistant"@) && mode
            == TreeFilterMode::UserOnly ==> filtered(seq![item], mode).len() == 0,
        item.entry_type == "message"@ && item.message_role == Some("assistant"@) && (mode
            == TreeFilterMode::Default || mode == TreeFilterMode::NoTools) ==> (filtered(
            seq![item],
            mode,
        ).len() == 0 <==> item.assistant_tool_only),
        (item.entry_type == "label"@ || item.entry_type == "custom"@ || item.entry_type
            == "model_change"@ || item.entry_type == "thinking_level_change"@) && (mode
            == TreeFilterMode::Default || mode == TreeFilterMode::NoTools || mode
            == TreeFilterMode::UserOnly) ==> filtered(seq![item], mode).len() == 0,
        (item.entry_type == "compaction"@ || item.entry_type == "branch_summary"@ || item.entry_type
            == "custom_message"@) && item.message_role is None && (mode == TreeFilterMode::Default
            || mode == TreeFilterMode::NoTools) ==> filtered(seq![item], mode) == seq![item],
        mode == TreeFilterMode::LabeledOnly ==> (filtered(seq![item], mode) == seq![item] <==> item.label
            is Some),
        filtered(seq![item], mode) == seq![item] || filtered(seq![item], mode).len() == 0,
{
    reveal_strlit("message");
    reveal_strlit("label");
    reveal_strlit("custom");
    reveal_strlit("custom_message");
    reveal_strlit("compaction");
    reveal_strlit("branch_summary");
    reveal_strlit("model_change");
    reveal_strlit("thinking_level_change");
    reveal_strlit("user");
    reveal_strlit("assistant");
    reveal_strlit("toolResult");
    assert("message"@[0] != "label"@[0]);
    assert("message"@[0] != "custom"@[0]);
    assert("message"@[1] != "model_change"@[1]);
    assert("message"@[0] != "thinking_level_change"@[0]);
    assert("compaction"@[0] != "label"@[0]);
    assert("compaction"@.len() != "custom"@.len());
    assert("compaction"@[0] != "model_change"@[0]);
    assert("compaction"@[0] != "thinking_level_change"@[0]);
    assert("branch_summary"@[0] != "label"@[0]);
    assert("branch_summary"@[0] != "custom"@[0]);
    assert("branch_summary"@[0] != "model_change"@[0]);
    assert("branch_summary"@[0] != "thinking_level_change"@[0]);
    assert("custom_message"@[0] != "label"@[0]);
    assert("custom_message"@.len() != "custom"@.len());
    assert("custom_message"@[0] != "model_change"@[0]);
    assert("custom_message"@[0] != "thinking_level_change"@[0]);
    assert("user"@[0] != "assistant"@[0]);
    assert("user"@[0] != "toolResult"@[0]);
    assert("assistant"@[0] != "toolResult"@[0]);
    let one = seq![item];
    assert(one.drop_last() =~= Seq::<TreeItemView>::empty());
    assert(filtered(one.drop_last(), mode) =~= Seq::<TreeItemView>::empty());
    assert(filtered(one, mode) =~= if shown_in(item, mode) {
        one
    } else {
        Seq::<TreeItemView>::empty()
    });
}

/// An entry is listed under its own identifier, type, role and label, and as deep as it stands.
pub proof fn entries_are_listed_as_themselves(node: TreeNode, depth: nat)
    ensures
        json::text_in(json::member(node.entry.value, "id"@)) is Some ==> Some(
            listed(node, depth).entry_id,
        ) == json::text_in(json::member(node.entry.value, "id"@)),
        json::text_in(json::member(node.entry.value, "type"@)) is Some ==> Some(
            listed(node, depth).entry_type,
        ) == json::text_in(json::member(node.entry.value, "type"@)),
        listed(node, depth).depth == depth,
        listed(node, depth).label == text::opt_text(node.label),
        json::member(node.entry.value, "message"@) matches Some(message) ==> listed(
            node,
            depth,
        ).message_role == json::text_in(json::member(message, "role"@)),
{
}

/// What is chosen in the list is the entry that is shown there, and the entry that the session stands at
/// is the only kind that is marked.
pub proof fn choices_are_what_is_shown(
    list: Seq<TreeItemView>,
    leaf: Option<Seq<char>>,
    mode: TreeFilterMode,
    i: int,
)
    requires
        0 <= i < list.len(),
    ensures
        tree_items(list, leaf, mode)[i].value == list[i].entry_id,
        tree_selections(list)[i] == (SelectionView::Tree {
            tree_entry_id: list[i].entry_id,
            label: list[i].label,
        }),
        tree_items(list, leaf, mode).len() == list.len(),
        tree_selections(list).len() == list.len(),
        text::has_prefix(tree_items(list, leaf, mode)[i].label, screen::warning("• "@)) || leaf
            != Some(list[i].entry_id),
{
    let shown = tree_items(list, leaf, mode)[i].label;
    let mark = screen::warning("• "@);
    if leaf == Some(list[i].entry_id) {
        assert(shown.take(mark.len() as int) =~= mark);
    }
}

/// The line of an entry is indented by three columns for each level above it.
pub proof fn branches_are_indented(depth: nat)
    ensures
        branch(depth).len() == 3 * depth,
{
    reveal_strlit("");
    reveal_strlit("└─ ");
}

/// A message is previewed with its role and its text.
pub proof fn messages_are_previewed(entry: JsonDoc, message: Json, role: Seq<char>, content: String)
    requires
        json::text_in(json::member(entry.value, "type"@)) == Some("message"@),
        json::member(entry.value, "message"@) == Some(message),
        json::text_in(json::member(message, "role"@)) == Some(role),
        json::member(message, "content"@) == Some(Json::Text(content)),
    ensures
        entry_preview(entry) == role + ": "@ + screen::cut(content@, 80),
{
}

/// The line above the tree shows what is searched for, and the filter where it is not the usual
/// one.
pub proof fn search_line_shows_the_search(value: Seq<char>, mode: Option<TreeFilterMode>)
    ensures
        text::has_prefix(tree_search_line(value, mode), "Type to search: "@ + value),
        mode is None || mode == Some(TreeFilterMode::Default) ==> tree_search_line(value, mode)
            == "Type to search: "@ + value,
        mode matches Some(m) ==> (m != TreeFilterMode::Default ==> text::has_suffix(
            tree_search_line(value, mode),
            screen::hint("["@ + m.name() + "]"@),
        )),
{
    reveal_strlit("");
    let line = tree_search_line(value, mode);
    let head = "Type to search: "@ + value;
    assert(line.take(head.len() as int) =~= head);
    if let Some(m) = mode {
        if m != TreeFilterMode::Default {
            let note = screen::hint("["@ + m.name() + "]"@);
            assert(line.skip(line.len() - note.len()) =~= note);
        } else {
            assert(line =~= head);
        }
    } else {
        assert(line =~= head);
    }
}

/// Every overlay that is chosen from shows its list, its title, and what is said around it.
pub proof fn search_overlays_show_their_parts(
    kind: SearchOverlayKind,
    title: Seq<char>,
    texts: SearchTexts,
    mode: Option<TreeFilterMode>,
    hint: Seq<char>,
    width: nat,
)
    ensures
        search_overlay(title, texts, width).contains(PieceView::List(false)),
        search_overlay(title, texts, width).contains(PieceView::Flow(screen::hint(texts.hint@))),
        texts.search_visible ==> search_overlay(title, texts, width).contains(
            PieceView::Field(false),
        ),
        texts.detail matches Some(detail) ==> search_overlay(title, texts, width).contains(
            PieceView::Flow(screen::subtitle(detail@)),
        ),
        search_shell(kind, texts, mode, width).contains(PieceView::List(false)),
        search_shell(kind, texts, mode, width).contains(
            PieceView::Flow(screen::title(search_title(kind))),
        ),
        kind == SearchOverlayKind::Tree ==> search_shell(kind, texts, mode, width).contains(
            PieceView::Flow(screen::cut(tree_search_line(texts.search_value@, mode), width)),
        ),
        summary_overlay(title, hint, width).contains(PieceView::List(true)),
        summary_overlay(title, hint, width).contains(PieceView::Flow(screen::title(title))),
        summary_overlay(title, hint, width).contains(PieceView::Flow(screen::hint(hint))),
{
    let all = search_overlay(title, texts, width);
    let n = pieces::banner(title, texts.subtitle@, width).len() as int + 1;
    let f = field_above(texts.search_visible).len() as int;
    let d = detail_below(text::opt_text(texts.detail), true).len() as int;
    if texts.search_visible {
        assert(all[n] == PieceView::Field(false));
    }
    assert(all[n + f] == PieceView::List(false));
    if let Some(detail) = texts.detail {
        assert(all[n + f + 2] == PieceView::Flow(screen::subtitle(detail@)));
    }
    assert(all[n + f + 1 + d + 1] == PieceView::Flow(screen::hint(texts.hint@)));
    let r = pieces::rule(width).len() as int;
    let shell = search_shell(kind, texts, mode, width);
    assert(shell[r + 1] == PieceView::Flow(screen::title(search_title(kind))));
    if kind == SearchOverlayKind::Tree {
        let h = flow_unless_blank(texts.hint@, screen::hint(texts.hint@)).len() as int;
        assert(shell[r + 2 + h] == PieceView::Flow(
            screen::cut(tree_search_line(texts.search_value@, mode), width),
        ));
        assert(shell[r + 2 + h + 2] == PieceView::List(false));
    } else {
        let s = flow_unless_blank(texts.subtitle@, screen::subtitle(texts.subtitle@)).len() as int;
        let m = mode_note(mode).len() as int;
        assert(shell[r + 2 + s + m + 1 + f] == PieceView::List(false));
    }
    let sum = summary_overlay(title, hint, width);
    assert(sum[r + 1] == PieceView::Flow(screen::title(title)));
    assert(sum[r + 3] == PieceView::List(true));
    assert(sum[r + 5] == PieceView::Flow(screen::hint(hint)));
}

proof fn kinds_differ()
    ensures
        "message"@.len() == 7,
        "custom_message"@.len() == 14,
        "branch_summary"@.len() == 14,
        "custom_message"@[0] != "branch_summary"@[0],
        "compaction"@.len() == 10,
        "model_change"@.len() == 12,
        "thinking_level_change"@.len() == 21,
        "text"@.len() == 4,
        "thinking"@.len() == 8,
        "toolCall"@.len() == 8,
        "thinking"@[1] != "toolCall"@[1],
        "image"@.len() == 5,
{
    reveal_strlit("message");
    reveal_strlit("custom_message");
    reveal_strlit("branch_summary");
    reveal_strlit("compaction");
    reveal_strlit("model_change");
    reveal_strlit("thinking_level_change");
    reveal_strlit("text");
    reveal_strlit("thinking");
    reveal_strlit("toolCall");
    reveal_strlit("image");
}

/// A summary, a change of the model and a change of the level of thinking are shown with what they
/// hold.
pub proof fn other_entries_are_previewed(entry: JsonDoc, a: Seq<char>, b: Seq<char>)
    ensures
        json::text_in(json::member(entry.value, "type"@)) == Some("branch_summary"@)
            && json::text_in(json::member(entry.value, "summary"@)) == Some(a) ==> entry_preview(
            entry,
        ) == "branch: "@ + a,
        json::text_in(json::member(entry.value, "type"@)) == Some("compaction"@) && json::text_in(
            json::member(entry.value, "summary"@),
        ) == Some(a) ==> entry_preview(entry) == "compaction: "@ + a,
        json::text_in(json::member(entry.value, "type"@)) == Some("model_change"@) && json::text_in(
            json::member(entry.value, "provider"@),
        ) == Some(a) && json::text_in(json::member(entry.value, "modelId"@)) == Some(b)
            ==> entry_preview(entry) == "model: "@ + a + "/"@ + b,
        json::text_in(json::member(entry.value, "type"@)) == Some("thinking_level_change"@)
            && json::text_in(json::member(entry.value, "thinkingLevel"@)) == Some(a)
            ==> entry_preview(entry) == "thinking: "@ + a,
{
    kinds_differ();
}

/// Of each block of a message its text is shown, its thinking, the tool that is called, or the kind
/// of image.
pub proof fn blocks_are_previewed(block: Json, s: Seq<char>)
    ensures
        json::text_in(json::member(block, "type"@)) == Some("text"@) && json::text_in(
            json::member(block, "text"@),
        ) == Some(s) ==> block_preview(block) == Some(s),
        json::text_in(json::member(block, "type"@)) == Some("thinking"@) && json::text_in(
            json::member(block, "thinking"@),
        ) == Some(s) ==> block_preview(block) == Some(s),
        json::text_in(json::member(block, "type"@)) == Some("toolCall"@) && json::text_in(
            json::member(block, "name"@),
        ) == Some(s) ==> block_preview(block) == Some("tool:"@ + s),
        json::text_in(json::member(block, "type"@)) == Some("image"@) && json::text_in(
            json::member(block, "mimeType"@),
        ) == Some(s) ==> block_preview(block) == Some("[image:"@ + s + "]"@),
        json::text_in(json::member(block, "type"@)) is None ==> block_preview(block) is None,
{
    kinds_differ();
}

/// The blocks of two runs are shown as those of the first, then those of the second.
pub proof fn previews_in_two(a: Seq<Json>, b: Seq<Json>)
    ensures
        block_previews(a + b) == block_previews(a) + block_previews(b),
    decreases b.len(),
{
    if b.len() == 0 {
        assert(a + b =~= a);
    } else {
        assert((a + b).drop_last() =~= a + b.drop_last());
        previews_in_two(a, b.drop_last());
        assert(block_previews(a + b) =~= block_previews(a) + block_previews(b));
    }
}

} // verus!
