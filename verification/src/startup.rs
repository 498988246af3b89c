//! The greeting above an empty transcript, and the lines that say what is going on.
use vstd::prelude::*;
use crate::chrome;
use crate::chrome::{startup_hint_lines, startup_notice_lines};
use crate::keybindings::KeybindingsManager;
use crate::screen;
use crate::screen::{style_brand, style_hint, style_startup_section_title, style_subtitle, style_warning, truncate_to_width};
use crate::text;
use crate::text::{cat2, cat3, cat4, copy_text, decimal_text, same};
use crate::tools;
use crate::tools::shorten_home_path;
use crate::wrap;
use crate::wrap::wrap_text;

verus! {

broadcast use crate::text::group_texts;

/// What a notice about resources is about.
#[derive(Clone, Copy, Debug, PartialEq, Eq, Structural)]
pub enum NoticeSection {
    Context,
    Skill,
    Prompt,
    Theme,
    Extension,
    Resource,
}

/// A notice about a resource, with the heading of its section.
#[derive(Clone, Debug, PartialEq, Eq)]
pub struct StartupNotice {
    pub section: NoticeSection,
    pub heading: String,
    pub path: String,
    pub message: String,
}

/// The resources that were found at the start.
#[derive(Clone, Debug, PartialEq, Eq)]
pub struct StartupSummary {
    pub skills: Vec<String>,
    pub prompts: Vec<String>,
    pub extensions: Vec<String>,
    pub extension_summaries: Vec<String>,
    pub themes: Vec<String>,
    pub notices: Vec<StartupNotice>,
    pub conflicts: Vec<StartupNotice>,
}

/// Entries below a title.
pub open spec fn entries_shown(entries: Seq<Seq<char>>, width: nat) -> Seq<Seq<char>> {
    Seq::new(entries.len(), |i: int| screen::cut(screen::hint("  "@ + entries[i]), width))
}

/// A section below what stands above it; without entries there is no section.
pub open spec fn with_section(
    above: Seq<Seq<char>>,
    title: Seq<char>,
    entries: Seq<Seq<char>>,
    width: nat,
) -> Seq<Seq<char>> {
    if entries.len() == 0 {
        above
    } else {
        above + chrome::only_if(above.len() > 0, ""@) + seq![
            screen::cut(screen::startup_section_title(title), width),
        ] + entries_shown(entries, width)
    }
}

/// Paths as they are shown.
pub open spec fn short_paths(paths: Seq<Seq<char>>, home: Option<Seq<char>>) -> Seq<Seq<char>> {
    Seq::new(paths.len(), |i: int| tools::short_path(paths[i], home))
}

/// The notices of a section.
pub open spec fn notices_in(notices: Seq<StartupNotice>, section: NoticeSection) -> Seq<StartupNotice>
    decreases notices.len(),
{
    if notices.len() == 0 {
        Seq::empty()
    } else if notices.last().section == section {
        notices_in(notices.drop_last(), section).push(notices.last())
    } else {
        notices_in(notices.drop_last(), section)
    }
}

/// Notices as lines.
pub open spec fn notices_shown(
    notices: Seq<StartupNotice>,
    home: Option<Seq<char>>,
    width: nat,
) -> Seq<Seq<char>> {
    Seq::new(
        notices.len(),
        |i: int|
            screen::cut(
                screen::hint(
                    "  "@ + tools::short_path(notices[i].path@, home) + ": "@
                        + notices[i].message@,
                ),
                width,
            ),
    )
}

/// The notices of a section under its heading, with a blank line below.
pub open spec fn notice_block(
    all: Seq<StartupNotice>,
    section: NoticeSection,
    home: Option<Seq<char>>,
    width: nat,
) -> Seq<Seq<char>> {
    let notices = notices_in(all, section);
    if notices.len() == 0 {
        Seq::empty()
    } else {
        seq![screen::cut(screen::warning("["@ + notices[0].heading@ + "]"@), width)]
            + notices_shown(notices, home, width) + seq![""@]
    }
}

/// The notices of all sections.
pub open spec fn notice_blocks(
    all: Seq<StartupNotice>,
    home: Option<Seq<char>>,
    width: nat,
) -> Seq<Seq<char>> {
    notice_block(all, NoticeSection::Context, home, width) + notice_block(
        all,
        NoticeSection::Skill,
        home,
        width,
    ) + notice_block(all, NoticeSection::Prompt, home, width) + notice_block(
        all,
        NoticeSection::Theme,
        home,
        width,
    ) + notice_block(all, NoticeSection::Extension, home, width) + notice_block(
        all,
        NoticeSection::Resource,
        home,
        width,
    )
}

/// The resources, section by section.
pub open spec fn resource_sections(
    context: Seq<Seq<char>>,
    summary: StartupSummary,
    home: Option<Seq<char>>,
    width: nat,
) -> Seq<Seq<char>> {
    let extensions = if summary.extension_summaries@.len() == 0 {
        short_paths(text::texts(summary.extensions@), home)
    } else {
        text::texts(summary.extension_summaries@)
    };
    let a = with_section(Seq::empty(), "[Context]"@, context, width);
    let b = with_section(
        a,
        "[Skills]"@,
        short_paths(text::texts(summary.skills@), home),
        width,
    );
    let c = with_section(
        b,
        "[Prompts]"@,
        short_paths(text::texts(summary.prompts@), home),
        width,
    );
    let d = with_section(c, "[Extensions]"@, extensions, width);
    with_section(d, "[Themes]"@, short_paths(text::texts(summary.themes@), home), width)
}

/// The notices that are shown: the conflicts where there is no other.
pub open spec fn shown_notices(summary: StartupSummary) -> Seq<StartupNotice> {
    if summary.notices@.len() == 0 {
        summary.conflicts@
    } else {
        summary.notices@
    }
}

/// The resources and the notices about them.
pub open spec fn resource_lines(
    context: Seq<Seq<char>>,
    summary: StartupSummary,
    home: Option<Seq<char>>,
    width: nat,
) -> Seq<Seq<char>> {
    let sections = resource_sections(context, summary, home, width);
    let notices = shown_notices(summary);
    if notices.len() == 0 {
        sections
    } else {
        tools::without_blank_end(
            sections + chrome::only_if(sections.len() > 0, ""@) + notice_blocks(
                notices,
                home,
                width,
            ),
        )
    }
}

fn append_startup_resource_section(
    lines: &mut Vec<String>,
    title: &str,
    entries: &[String],
    width: usize,
)
    ensures
        text::texts(final(lines)@) == with_section(
            text::texts(old(lines)@),
            title@,
            text::texts(entries@),
            width as nat,
        ),
{
    if entries.len() == 0 {
        return ;
    }
    let ghost above = text::texts(lines@);
    if lines.len() > 0 {
        lines.push(copy_text(""));
    }
    lines.push(truncate_to_width(style_startup_section_title(title).as_str(), width));
    let ghost first = text::texts(lines@);
    let ghost shown = entries_shown(text::texts(entries@), width as nat);
    let mut i: usize = 0;
    assert(first =~= first + shown.take(0));
    while i < entries.len()
        invariant
            0 <= i <= entries.len(),
            shown == entries_shown(text::texts(entries@), width as nat),
            text::texts(lines@) == first + shown.take(i as int),
        decreases entries.len() - i,
    {
        lines.push(
            truncate_to_width(
                style_hint(cat2("  ", entries[i].as_str()).as_str()).as_str(),
                width,
            ),
        );
        i += 1;
        assert(shown.take(i as int) =~= shown.take(i - 1).push(shown[i - 1]));
        assert(text::texts(lines@) =~= first + shown.take(i as int));
    }
    assert(shown.take(i as int) =~= shown);
    assert(text::texts(lines@) =~= with_section(
        above,
        title@,
        text::texts(entries@),
        width as nat,
    ));
}

/// Paths as they are shown.
pub fn shorten_paths(paths: &[String], home: &Option<String>) -> (r: Vec<String>)
    ensures
        text::texts(r@) == short_paths(text::texts(paths@), text::opt_text(*home)),
{
    let ghost shown = short_paths(text::texts(paths@), text::opt_text(*home));
    let mut out: Vec<String> = Vec::new();
    let mut i: usize = 0;
    assert(shown.take(0) =~= Seq::<Seq<char>>::empty());
    while i < paths.len()
        invariant
            0 <= i <= paths.len(),
            shown == short_paths(text::texts(paths@), text::opt_text(*home)),
            text::texts(out@) == shown.take(i as int),
        decreases paths.len() - i,
    {
        out.push(shorten_home_path(paths[i].as_str(), home));
        i += 1;
        assert(shown.take(i as int) =~= shown.take(i - 1).push(shown[i - 1]));
    }
    assert(shown.take(i as int) =~= shown);
    out
}

fn append_startup_resource_path_section(
    lines: &mut Vec<String>,
    title: &str,
    entries: &[String],
    home: &Option<String>,
    width: usize,
)
    ensures
        text::texts(final(lines)@) == with_section(
            text::texts(old(lines)@),
            title@,
            short_paths(text::texts(entries@), text::opt_text(*home)),
            width as nat,
        ),
{
    let display = shorten_paths(entries, home);
    append_startup_resource_section(lines, title, display.as_slice(), width);
}

fn append_notice_block(
    lines: &mut Vec<String>,
    notices: &[StartupNotice],
    section: NoticeSection,
    home: &Option<String>,
    width: usize,
)
    ensures
        text::texts(final(lines)@) == text::texts(old(lines)@) + notice_block(
            notices@,
            section,
            text::opt_text(*home),
            width as nat,
        ),
{
    let ghost above = text::texts(lines@);
    let ghost dir = text::opt_text(*home);
    let mut some = false;
    let mut i: usize = 0;
    assert(notices@.take(0) =~= Seq::<StartupNotice>::empty());
    assert(above =~= above + Seq::<Seq<char>>::empty());
    while i < notices.len()
        invariant
            0 <= i <= notices.len(),
            dir == text::opt_text(*home),
            some == (notices_in(notices@.take(i as int), section).len() > 0),
            !some ==> text::texts(lines@) == above,
            some ==> text::texts(lines@) == above + seq![
                screen::cut(
                    screen::warning(
                        "["@ + notices_in(notices@.take(i as int), section)[0].heading@ + "]"@,
                    ),
                    width as nat,
                ),
            ] + notices_shown(notices_in(notices@.take(i as int), section), dir, width as nat),
        decreases notices.len() - i,
    {
        assert(notices@.take(i + 1).drop_last() =~= notices@.take(i as int));
        let notice = &notices[i];
        let ghost earlier = notices_in(notices@.take(i as int), section);
        if notice.section == section {
            let ghost before = text::texts(lines@);
            if !some {
                lines.push(
                    truncate_to_width(
                        style_warning(cat3("[", notice.heading.as_str(), "]").as_str()).as_str(),
                        width,
                    ),
                );
                some = true;
            }
            lines.push(
                truncate_to_width(
                    style_hint(
                        cat4(
                            "  ",
                            shorten_home_path(notice.path.as_str(), home).as_str(),
                            ": ",
                            notice.message.as_str(),
                        ).as_str(),
                    ).as_str(),
                    width,
                ),
            );
            let ghost now = notices_in(notices@.take(i + 1), section);
            assert(now == earlier.push(*notice));
            assert(notices_shown(now, dir, width as nat) =~= notices_shown(
                earlier,
                dir,
                width as nat,
            ).push(notices_shown(now, dir, width as nat).last()));
            assert(text::texts(lines@) =~= above + seq![
                screen::cut(screen::warning("["@ + now[0].heading@ + "]"@), width as nat),
            ] + notices_shown(now, dir, width as nat));
        }
        i += 1;
    }
    assert(notices@.take(i as int) =~= notices@);
    if some {
        lines.push(copy_text(""));
    }
    assert(text::texts(lines@) =~= above + notice_block(notices@, section, dir, width as nat));
}

fn drop_blank_end(lines: &mut Vec<String>)
    ensures
        text::texts(final(lines)@) == tools::without_blank_end(text::texts(old(lines)@)),
{
    let ghost whole = text::texts(lines@);
    let mut more = lines.len() > 0 && lines[lines.len() - 1].as_str().is_empty();
    while more
        invariant
            more == (lines@.len() > 0 && lines@.last()@.len() == 0),
            tools::without_blank_end(text::texts(lines@)) == tools::without_blank_end(whole),
        decreases lines@.len(),
    {
        let ghost before = text::texts(lines@);
        let _ = lines.pop();
        assert(before.drop_last() =~= text::texts(lines@));
        more = lines.len() > 0 && lines[lines.len() - 1].as_str().is_empty();
    }
}

/// The resources that were found at the start, and the notices about them.
pub fn startup_resource_lines(
    context_files: &[String],
    summary: &StartupSummary,
    home: &Option<String>,
    width: usize,
) -> (r: Vec<String>)
    ensures
        text::texts(r@) == resource_lines(
            text::texts(context_files@),
            *summary,
            text::opt_text(*home),
            width as nat,
        ),
{
    let mut lines: Vec<String> = Vec::new();
    append_startup_resource_section(&mut lines, "[Context]", context_files, width);
    append_startup_resource_path_section(
        &mut lines,
        "[Skills]",
        summary.skills.as_slice(),
        home,
        width,
    );
    append_startup_resource_path_section(
        &mut lines,
        "[Prompts]",
        summary.prompts.as_slice(),
        home,
        width,
    );
    if summary.extension_summaries.len() == 0 {
        append_startup_resource_path_section(
            &mut lines,
            "[Extensions]",
            summary.extensions.as_slice(),
            home,
            width,
        );
    } else {
        append_startup_resource_section(
            &mut lines,
            "[Extensions]",
            summary.extension_summaries.as_slice(),
            width,
        );
    }
    append_startup_resource_path_section(
        &mut lines,
        "[Themes]",
        summary.themes.as_slice(),
        home,
        width,
    );
    let ghost sections = text::texts(lines@);
    let ghost dir = text::opt_text(*home);
    assert(sections == resource_sections(
        text::texts(context_files@),
        *summary,
        dir,
        width as nat,
    ));
    let notices: &[StartupNotice] = if summary.notices.len() == 0 {
        summary.conflicts.as_slice()
    } else {
        summary.notices.as_slice()
    };
    if notices.len() == 0 {
        return lines;
    }
    if lines.len() > 0 {
        lines.push(copy_text(""));
    }
    append_notice_block(&mut lines, notices, NoticeSection::Context, home, width);
    append_notice_block(&mut lines, notices, NoticeSection::Skill, home, width);
    append_notice_block(&mut lines, notices, NoticeSection::Prompt, home, width);
    append_notice_block(&mut lines, notices, NoticeSection::Theme, home, width);
    append_notice_block(&mut lines, notices, NoticeSection::Extension, home, width);
    append_notice_block(&mut lines, notices, NoticeSection::Resource, home, width);
    assert(text::texts(lines@) =~= sections + chrome::only_if(sections.len() > 0, ""@)
        + notice_blocks(notices@, dir, width as nat));
    drop_blank_end(&mut lines);
    lines
}

/// More lines below others, set apart by a blank line.
pub open spec fn set_apart(above: Seq<Seq<char>>, more: Seq<Seq<char>>) -> Seq<Seq<char>> {
    if more.len() == 0 {
        above
    } else {
        above + chrome::only_if(!(above.len() > 0 && above.last().len() == 0), ""@) + more
    }
}

/// The greeting.
pub open spec fn header_lines(
    version: Seq<char>,
    quiet: bool,
    keys: KeybindingsManager,
    no_models: bool,
    notices: Seq<Seq<char>>,
    context: Seq<Seq<char>>,
    summary: StartupSummary,
    home: Option<Seq<char>>,
    width: nat,
) -> Seq<Seq<char>> {
    let first = seq![screen::brand("pi v"@ + version)];
    let greeted = if quiet {
        first
    } else {
        first + seq![""@] + chrome::startup_hints(keys)
    };
    set_apart(
        set_apart(greeted, chrome::startup_notices(no_models, notices, width)),
        resource_lines(context, summary, home, width),
    )
}

fn append_apart(lines: &mut Vec<String>, more: Vec<String>)
    ensures
        text::texts(final(lines)@) == set_apart(text::texts(old(lines)@), text::texts(more@)),
{
    let ghost above = text::texts(lines@);
    let ghost added = text::texts(more@);
    if more.len() == 0 {
        return ;
    }
    let ends_blank = lines.len() > 0 && lines[lines.len() - 1].as_str().is_empty();
    if !ends_blank {
        lines.push(copy_text(""));
    }
    let mut rest = more;
    lines.append(&mut rest);
    assert(text::texts(lines@) =~= set_apart(above, added));
}

/// The greeting: the version, the hints unless they are unwanted, the notices and the resources.
pub fn startup_header_lines(
    version: &str,
    quiet_startup: bool,
    keybindings: &KeybindingsManager,
    no_models_available: bool,
    notices: &[String],
    context_files: &[String],
    summary: &StartupSummary,
    home: &Option<String>,
    width: u16,
) -> (r: Vec<String>)
    ensures
        text::texts(r@) == header_lines(
            version@,
            quiet_startup,
            *keybindings,
            no_models_available,
            text::texts(notices@),
            text::texts(context_files@),
            *summary,
            text::opt_text(*home),
            width as nat,
        ),
{
    let mut lines: Vec<String> = Vec::new();
    lines.push(style_brand(cat2("pi v", version).as_str()));
    assert(text::texts(lines@) =~= seq![screen::brand("pi v"@ + version@)]);
    if !quiet_startup {
        let ghost first = text::texts(lines@);
        lines.push(copy_text(""));
        let mut hints = startup_hint_lines(keybindings);
        lines.append(&mut hints);
        assert(text::texts(lines@) =~= first + seq![""@] + chrome::startup_hints(*keybindings));
    }
    append_apart(&mut lines, startup_notice_lines(no_models_available, notices, width as usize));
    append_apart(
        &mut lines,
        startup_resource_lines(context_files, summary, home, width as usize),
    );
    lines
}

/// What a provider of logins is called.
pub open spec fn provider_label(provider: Seq<char>) -> Seq<char> {
    if provider == "openai-codex"@ {
        "OpenAI Codex"@
    } else if provider == "anthropic"@ {
        "Anthropic"@
    } else {
        "OAuth Provider"@
    }
}

/// What a provider of logins is called.
pub fn oauth_provider_label(provider: &str) -> (r: &'static str)
    ensures
        r@ == provider_label(provider@),
{
    if same(provider, "openai-codex") {
        "OpenAI Codex"
    } else if same(provider, "anthropic") {
        "Anthropic"
    } else {
        "OAuth Provider"
    }
}

/// The sign that turns while something is going on.
pub open spec fn spinner(count: nat) -> Seq<char> {
    if count % 4 == 0 {
        "-"@
    } else if count % 4 == 1 {
        "\\"@
    } else if count % 4 == 2 {
        "|"@
    } else {
        "/"@
    }
}

/// The sign that turns while something is going on.
pub fn spinner_text(count: usize) -> (r: &'static str)
    ensures
        r@ == spinner(count as nat),
{
    match count % 4 {
        0 => "-",
        1 => "\\",
        2 => "|",
        _ => "/",
    }
}

/// A login that is going on: the provider, and since how many seconds.
#[derive(Clone, Debug, PartialEq, Eq)]
pub struct LoginProgress {
    pub provider: String,
    pub elapsed_seconds: u64,
}

/// Lines in the style of a subtitle.
pub open spec fn subtitles(lines: Seq<Seq<char>>) -> Seq<Seq<char>> {
    Seq::new(lines.len(), |i: int| screen::subtitle(lines[i]))
}

/// The lines that say what is going on.
pub open spec fn status_lines(
    status: Option<Seq<char>>,
    sharing: bool,
    working: bool,
    login: Option<LoginProgress>,
    count: nat,
    width: nat,
) -> Seq<Seq<char>> {
    (match status {
        Some(message) => subtitles(wrap::wrapped(message, width)),
        None => Seq::empty(),
    }) + chrome::only_if(
        sharing,
        screen::cut(
            screen::warning(spinner(count) + " Creating gist... Esc cancels"@),
            width,
        ),
    ) + chrome::only_if(
        working,
        screen::cut(screen::warning("Working... (Esc to interrupt)"@), width),
    ) + (match login {
        Some(progress) => seq![
            screen::cut(
                screen::warning(
                    spinner(count) + " Authenticating with "@ + provider_label(
                        progress.provider@,
                    ) + " for "@ + text::decimal(progress.elapsed_seconds as nat)
                        + "s - Esc cancels"@,
                ),
                width,
            ),
        ],
        None => Seq::empty(),
    })
}

fn style_subtitles(lines: &[String]) -> (r: Vec<String>)
    ensures
        text::texts(r@) == subtitles(text::texts(lines@)),
{
    let ghost shown = subtitles(text::texts(lines@));
    let mut out: Vec<String> = Vec::new();
    let mut i: usize = 0;
    assert(shown.take(0) =~= Seq::<Seq<char>>::empty());
    while i < lines.len()
        invariant
            0 <= i <= lines.len(),
            shown == subtitles(text::texts(lines@)),
            text::texts(out@) == shown.take(i as int),
        decreases lines.len() - i,
    {
        out.push(style_subtitle(lines[i].as_str()));
        i += 1;
        assert(shown.take(i as int) =~= shown.take(i - 1).push(shown[i - 1]));
    }
    assert(shown.take(i as int) =~= shown);
    out
}

/// The lines that say what is going on: the last message, and a line for each thing that runs.
pub fn render_status_lines(
    status: Option<&str>,
    sharing: bool,
    working: bool,
    login: &Option<LoginProgress>,
    spinner_frame: usize,
    width: u16,
) -> (r: Vec<String>)
    ensures
        text::texts(r@) == status_lines(
            chrome::opt_str(status),
            sharing,
            working,
            *login,
            spinner_frame as nat,
            width as nat,
        ),
{
    let w: usize = width as usize;
    let mut lines: Vec<String> = Vec::new();
    if let Some(message) = status {
        let wrapped = wrap_text(message, w);
        lines = style_subtitles(wrapped.as_slice());
    }
    if sharing {
        lines.push(
            truncate_to_width(
                style_warning(
                    cat2(spinner_text(spinner_frame), " Creating gist... Esc cancels").as_str(),
                ).as_str(),
                w,
            ),
        );
    }
    if working {
        lines.push(truncate_to_width(style_warning("Working... (Esc to interrupt)").as_str(), w));
    }
    if let Some(progress) = login {
        let start = cat4(
            spinner_text(spinner_frame),
            " Authenticating with ",
            oauth_provider_label(progress.provider.as_str()),
            " for ",
        );
        lines.push(
            truncate_to_width(
                style_warning(
                    cat3(
                        start.as_str(),
                        decimal_text(progress.elapsed_seconds).as_str(),
                        "s - Esc cancels",
                    ).as_str(),
                ).as_str(),
                w,
            ),
        );
    }
    assert(text::texts(lines@) =~= status_lines(
        chrome::opt_str(status),
        sharing,
        working,
        *login,
        spinner_frame as nat,
        width as nat,
    ));
    lines
}

proof fn joined_contains(a: Seq<Seq<char>>, b: Seq<Seq<char>>, line: Seq<char>)
    ensures
        a.contains(line) || b.contains(line) ==> (a + b).contains(line),
{
    if a.contains(line) {
        let k = choose|k: int| 0 <= k < a.len() && a[k] == line;
        assert((a + b)[k] == line);
    }
    if b.contains(line) {
        let k = choose|k: int| 0 <= k < b.len() && b[k] == line;
        assert((a + b)[a.len() + k] == line);
    }
}

proof fn section_adds(
    above: Seq<Seq<char>>,
    title: Seq<char>,
    entries: Seq<Seq<char>>,
    width: nat,
    line: Seq<char>,
)
    ensures
        above.contains(line) ==> with_section(above, title, entries, width).contains(line),
        entries_shown(entries, width).contains(line) ==> with_section(
            above,
            title,
            entries,
            width,
        ).contains(line),
        entries.len() > 0 ==> with_section(above, title, entries, width).contains(
            screen::cut(screen::startup_section_title(title), width),
        ),
{
    if entries.len() > 0 {
        let head = seq![screen::cut(screen::startup_section_title(title), width)];
        let gap = chrome::only_if(above.len() > 0, ""@);
        assert(head[0] == screen::cut(screen::startup_section_title(title), width));
        joined_contains(above, gap, line);
        joined_contains(above + gap, head, line);
        joined_contains(above + gap, head, head[0]);
        joined_contains(above + gap + head, entries_shown(entries, width), line);
        joined_contains(above + gap + head, entries_shown(entries, width), head[0]);
    }
}

/// The line of an entry: two spaces and the entry, as far as there is room.
pub open spec fn entry_line(entry: Seq<char>, width: nat) -> Seq<char> {
    screen::cut(screen::hint("  "@ + entry), width)
}

/// The line of an entry shows that entry.
pub proof fn entry_lines_show_the_entry(entry: Seq<char>, width: nat)
    requires
        !entry.contains('\x1b'),
        entry.len() + 2 <= width,
    ensures
        screen::visible(entry_line(entry, width)) == seq![' ', ' '] + entry,
{
    reveal_strlit("  ");
    let s = "  "@ + entry;
    assert(s =~= seq![' ', ' '] + entry);
    assert(!s.contains('\x1b')) by {
        if s.contains('\x1b') {
            let k = choose|k: int| 0 <= k < s.len() && s[k] == '\x1b';
            if k >= 2 {
                assert(entry[k - 2] == '\x1b');
            }
        }
    }
    screen::inline_codes();
    screen::plain_is_visible(s);
    screen::styled_shows_the_text("38;2;128;128;128"@, s);
    screen::cut_shows_the_beginning(screen::hint(s), width);
    assert(s.take(s.len() as int) =~= s);
}

/// Every context file, skill, prompt, extension and theme is listed when the interface starts;
/// where the extensions are summed up, the summaries stand in their place.
pub proof fn resources_are_listed(
    context: Seq<Seq<char>>,
    summary: StartupSummary,
    home: Option<Seq<char>>,
    width: nat,
    i: int,
)
    ensures
        0 <= i < context.len() ==> resource_sections(context, summary, home, width).contains(
            entry_line(context[i], width),
        ),
        0 <= i < summary.skills@.len() ==> resource_sections(
            context,
            summary,
            home,
            width,
        ).contains(entry_line(tools::short_path(summary.skills@[i]@, home), width)),
        0 <= i < summary.prompts@.len() ==> resource_sections(
            context,
            summary,
            home,
            width,
        ).contains(entry_line(tools::short_path(summary.prompts@[i]@, home), width)),
        0 <= i < summary.themes@.len() ==> resource_sections(
            context,
            summary,
            home,
            width,
        ).contains(entry_line(tools::short_path(summary.themes@[i]@, home), width)),
        0 <= i < summary.extension_summaries@.len() ==> resource_sections(
            context,
            summary,
            home,
            width,
        ).contains(entry_line(summary.extension_summaries@[i]@, width)),
        0 <= i < summary.extensions@.len() && summary.extension_summaries@.len() == 0
            ==> resource_sections(context, summary, home, width).contains(
            entry_line(tools::short_path(summary.extensions@[i]@, home), width),
        ),
{
    let skills = short_paths(text::texts(summary.skills@), home);
    let prompts = short_paths(text::texts(summary.prompts@), home);
    let themes = short_paths(text::texts(summary.themes@), home);
    let extensions = if summary.extension_summaries@.len() == 0 {
        short_paths(text::texts(summary.extensions@), home)
    } else {
        text::texts(summary.extension_summaries@)
    };
    let a = with_section(Seq::empty(), "[Context]"@, context, width);
    let b = with_section(a, "[Skills]"@, skills, width);
    let c = with_section(b, "[Prompts]"@, prompts, width);
    let d = with_section(c, "[Extensions]"@, extensions, width);
    if 0 <= i < context.len() {
        let line = entry_line(context[i], width);
        assert(entries_shown(context, width)[i] == line);
        section_adds(Seq::empty(), "[Context]"@, context, width, line);
        section_adds(a, "[Skills]"@, skills, width, line);
        section_adds(b, "[Prompts]"@, prompts, width, line);
        section_adds(c, "[Extensions]"@, extensions, width, line);
        section_adds(d, "[Themes]"@, themes, width, line);
    }
    if 0 <= i < skills.len() {
        let line = entry_line(skills[i], width);
        assert(entries_shown(skills, width)[i] == line);
        section_adds(a, "[Skills]"@, skills, width, line);
        section_adds(b, "[Prompts]"@, prompts, width, line);
        section_adds(c, "[Extensions]"@, extensions, width, line);
        section_adds(d, "[Themes]"@, themes, width, line);
    }
    if 0 <= i < prompts.len() {
        let line = entry_line(prompts[i], width);
        assert(entries_shown(prompts, width)[i] == line);
        section_adds(b, "[Prompts]"@, prompts, width, line);
        section_adds(c, "[Extensions]"@, extensions, width, line);
        section_adds(d, "[Themes]"@, themes, width, line);
    }
    if 0 <= i < extensions.len() {
        let line = entry_line(extensions[i], width);
        assert(entries_shown(extensions, width)[i] == line);
        section_adds(c, "[Extensions]"@, extensions, width, line);
        section_adds(d, "[Themes]"@, themes, width, line);
    }
    if 0 <= i < themes.len() {
        let line = entry_line(themes[i], width);
        assert(entries_shown(themes, width)[i] == line);
        section_adds(d, "[Themes]"@, themes, width, line);
    }
}

proof fn notice_is_in_its_section(all: Seq<StartupNotice>, i: int)
    requires
        0 <= i < all.len(),
    ensures
        notices_in(all, all[i].section).contains(all[i]),
    decreases all.len(),
{
    let section = all[i].section;
    let before = notices_in(all.drop_last(), section);
    let found = notices_in(all, section);
    if i < all.len() - 1 {
        assert(all.drop_last()[i] == all[i]);
        notice_is_in_its_section(all.drop_last(), i);
        let k = choose|k: int| 0 <= k < before.len() && before[k] == all[i];
        assert(found[k] == all[i]);
    } else {
        assert(found[before.len() as int] == all[i]);
    }
}

/// Every notice is shown, with its path and what it says, in the block of its section and of no
/// other.
pub proof fn notices_stand_in_their_section(
    all: Seq<StartupNotice>,
    home: Option<Seq<char>>,
    width: nat,
    i: int,
)
    requires
        0 <= i < all.len(),
    ensures
        notice_block(all, all[i].section, home, width).contains(
            entry_line(tools::short_path(all[i].path@, home) + ": "@ + all[i].message@, width),
        ),
        notice_blocks(all, home, width).contains(
            entry_line(tools::short_path(all[i].path@, home) + ": "@ + all[i].message@, width),
        ),
{
    let section = all[i].section;
    let line = entry_line(tools::short_path(all[i].path@, home) + ": "@ + all[i].message@, width);
    notice_is_in_its_section(all, i);
    let found = notices_in(all, section);
    let k = choose|k: int| 0 <= k < found.len() && found[k] == all[i];
    let shown = notices_shown(found, home, width);
    assert("  "@ + (tools::short_path(all[i].path@, home) + ": "@ + all[i].message@) =~= "  "@
        + tools::short_path(all[i].path@, home) + ": "@ + all[i].message@);
    assert(shown[k] == line);
    let head = seq![screen::cut(screen::warning("["@ + found[0].heading@ + "]"@), width)];
    joined_contains(head, shown, line);
    joined_contains(head + shown, seq![""@], line);
    let a = notice_block(all, NoticeSection::Context, home, width);
    let b = notice_block(all, NoticeSection::Skill, home, width);
    let c = notice_block(all, NoticeSection::Prompt, home, width);
    let d = notice_block(all, NoticeSection::Theme, home, width);
    let e = notice_block(all, NoticeSection::Extension, home, width);
    let f = notice_block(all, NoticeSection::Resource, home, width);
    joined_contains(a, b, line);
    joined_contains(a + b, c, line);
    joined_contains(a + b + c, d, line);
    joined_contains(a + b + c + d, e, line);
    joined_contains(a + b + c + d + e, f, line);
}

/// A block holds the notices of its section alone.
pub proof fn blocks_hold_their_own(all: Seq<StartupNotice>, section: NoticeSection, i: int)
    requires
        0 <= i < notices_in(all, section).len(),
    ensures
        notices_in(all, section)[i].section == section,
        all.contains(notices_in(all, section)[i]),
    decreases all.len(),
{
    let before = notices_in(all.drop_last(), section);
    if i < before.len() {
        blocks_hold_their_own(all.drop_last(), section, i);
        let k = choose|k: int|
            0 <= k < all.drop_last().len() && all.drop_last()[k] == before[i];
        assert(all[k] == before[i]);
    } else {
        assert(all[all.len() - 1] == notices_in(all, section)[i]);
    }
}

/// The interface greets with its version; a quiet start leaves the hints out and nothing else, and
/// every warning and every listed resource follows.
pub proof fn greeting_comes_first(
    version: Seq<char>,
    quiet: bool,
    keys: KeybindingsManager,
    no_models: bool,
    notices: Seq<Seq<char>>,
    context: Seq<Seq<char>>,
    summary: StartupSummary,
    home: Option<Seq<char>>,
    width: nat,
    line: Seq<char>,
)
    ensures
        ({
            let lines = header_lines(
                version,
                quiet,
                keys,
                no_models,
                notices,
                context,
                summary,
                home,
                width,
            );
            &&& lines.len() > 0
            &&& lines[0] == screen::brand("pi v"@ + version)
            &&& !quiet && chrome::startup_hints(keys).contains(line) ==> lines.contains(line)
            &&& chrome::startup_notices(no_models, notices, width).contains(line)
                ==> lines.contains(line)
            &&& resource_lines(context, summary, home, width).contains(line) ==> lines.contains(
                line,
            )
        }),
{
    let first = seq![screen::brand("pi v"@ + version)];
    let hints = chrome::startup_hints(keys);
    let greeted = if quiet {
        first
    } else {
        first + seq![""@] + hints
    };
    let told = chrome::startup_notices(no_models, notices, width);
    let listed = resource_lines(context, summary, home, width);
    joined_contains(first + seq![""@], hints, line);
    setting_apart_keeps(greeted, told, line);
    setting_apart_keeps(set_apart(greeted, told), listed, line);
    assert(greeted[0] == first[0]);
    assert(set_apart(greeted, told)[0] == first[0]);
}

proof fn setting_apart_keeps(above: Seq<Seq<char>>, more: Seq<Seq<char>>, line: Seq<char>)
    ensures
        above.contains(line) || more.contains(line) ==> set_apart(above, more).contains(line),
        above.len() > 0 ==> set_apart(above, more).len() > 0 && set_apart(above, more)[0]
            == above[0],
{
    let gap = chrome::only_if(!(above.len() > 0 && above.last().len() == 0), ""@);
    joined_contains(above, gap, line);
    joined_contains(above + gap, more, line);
}

/// What is being done is said, each thing on a line of its own and only while it is done.
pub proof fn work_is_announced(
    status: Option<Seq<char>>,
    sharing: bool,
    working: bool,
    login: Option<LoginProgress>,
    count: nat,
    width: nat,
)
    ensures
        ({
            let said = (match status {
                Some(message) => wrap::wrapped(message, width).len() as int,
                None => 0int,
            });
            let shared = (if sharing {
                1int
            } else {
                0int
            });
            let worked = (if working {
                1int
            } else {
                0int
            });
            let lines = status_lines(status, sharing, working, login, count, width);
            &&& lines.len() == said + shared + worked + (if login is Some {
                1int
            } else {
                0int
            })
            &&& status matches Some(message) ==> forall|i: int|
                0 <= i < said ==> (#[trigger] lines[i]) == screen::subtitle(
                    wrap::wrapped(message, width)[i],
                )
            &&& sharing ==> lines[said] == screen::cut(
                screen::warning(spinner(count) + " Creating gist... Esc cancels"@),
                width,
            )
            &&& working ==> lines[said + shared] == screen::cut(
                screen::warning("Working... (Esc to interrupt)"@),
                width,
            )
        }),
{
}

/// The sign that turns takes each of four shapes in turn.
pub proof fn spinner_goes_round(count: nat)
    ensures
        spinner(count + 4) == spinner(count),
        spinner(count) != spinner(count + 1),
        spinner(count) != spinner(count + 2),
        spinner(count) != spinner(count + 3),
{
    reveal_strlit("-");
    reveal_strlit("\\");
    reveal_strlit("|");
    reveal_strlit("/");
    assert("-"@[0] != "\\"@[0] && "-"@[0] != "|"@[0] && "-"@[0] != "/"@[0]);
    assert("\\"@[0] != "|"@[0] && "\\"@[0] != "/"@[0] && "|"@[0] != "/"@[0]);
}

} // verus!
