//! The validation packet inside a prompt, and the messages about it.
//!
//! A prompt may hold a section of build and test commands, followed by a
//! summary checklist. The controller takes both sections out of what the model
//! sees and runs the commands itself.
use vstd::prelude::*;
use vstd::string::*;

use crate::text;
use crate::user_input::UserInput;

verus! {

pub const BUILD_TEST_COMMANDS_HEADING: &'static str = "Build/test commands:";

pub const SUMMARY_CHECKLIST_HEADING: &'static str = "Summary checklist:";

pub const VALIDATION_NOTE: &'static str = "Validation is controller-managed.";

pub const SILENT_FINAL_INSTRUCTION: &'static str = "Controller-managed validation is pending. Make the required edits only. Do not output a final answer, summary, checklist, or validation report. When edits are complete, end the turn silently.";

/// The most bytes of command output that a failure summary holds.
pub const MAX_FAILURE_OUTPUT_CHARS: usize = 8192;

/// The first index, not before `from`, of a line that says `heading` and
/// nothing else but white space.
pub open spec fn first_heading(lines: Seq<Seq<char>>, from: int, heading: Seq<char>) -> Option<int>
    decreases lines.len() - from,
{
    if from >= lines.len() {
        None
    } else if text::trimmed(lines[from]) == heading {
        Some(from)
    } else {
        first_heading(lines, from + 1, heading)
    }
}

/// The trimmed line opens or closes a fenced block.
pub open spec fn is_fence(trimmed: Seq<char>) -> bool {
    "```"@.is_prefix_of(trimmed)
}

/// The trimmed line is an item of a list.
pub open spec fn is_list_item(trimmed: Seq<char>) -> bool {
    "- "@.is_prefix_of(trimmed) || "* "@.is_prefix_of(trimmed)
}

/// The line belongs to a checklist: it is blank, an item or a fence.
pub open spec fn in_checklist(line: Seq<char>) -> bool {
    let trimmed = text::trimmed(line);
    trimmed.len() == 0 || is_list_item(trimmed) || is_fence(trimmed)
}

/// The first index, not before `from`, of a line outside the checklist.
pub open spec fn checklist_end(lines: Seq<Seq<char>>, from: int) -> Option<int>
    decreases lines.len() - from,
{
    if from >= lines.len() {
        None
    } else if !in_checklist(lines[from]) {
        Some(from)
    } else {
        checklist_end(lines, from + 1)
    }
}

/// A fenced block is open behind the lines of `section`.
pub open spec fn fence_open(section: Seq<Seq<char>>) -> bool
    decreases section.len(),
{
    if section.len() == 0 {
        false
    } else if is_fence(text::trimmed(section.last())) {
        !fence_open(section.drop_last())
    } else {
        fence_open(section.drop_last())
    }
}

/// The command that `line` gives: the trimmed line, which outside a fenced
/// block loses its list marker.
pub open spec fn line_command(line: Seq<char>, fenced: bool) -> Option<Seq<char>> {
    let trimmed = text::trimmed(line);
    if is_fence(trimmed) || trimmed.len() == 0 {
        None
    } else if !fenced && is_list_item(trimmed) {
        let item = text::trimmed(trimmed.skip(2));
        if item.len() == 0 {
            None
        } else {
            Some(item)
        }
    } else {
        Some(trimmed)
    }
}

/// The commands that the lines of `section` give, in their order.
pub open spec fn section_commands(section: Seq<Seq<char>>) -> Seq<Seq<char>>
    decreases section.len(),
{
    if section.len() == 0 {
        Seq::empty()
    } else {
        let before = section_commands(section.drop_last());
        match line_command(section.last(), fence_open(section.drop_last())) {
            Some(command) => before.push(command),
            None => before,
        }
    }
}

/// The line of the heading of the command section.
pub open spec fn build_start(lines: Seq<Seq<char>>) -> Option<int> {
    first_heading(lines, 0, BUILD_TEST_COMMANDS_HEADING@)
}

/// The line of the heading of the checklist, behind that of the commands.
pub open spec fn summary_start(lines: Seq<Seq<char>>) -> Option<int> {
    match build_start(lines) {
        Some(start) => first_heading(lines, start + 1, SUMMARY_CHECKLIST_HEADING@),
        None => None,
    }
}

/// The line behind the checklist, if the text goes on.
pub open spec fn summary_end(lines: Seq<Seq<char>>) -> Option<int> {
    match summary_start(lines) {
        Some(start) => checklist_end(lines, start + 1),
        None => None,
    }
}

/// The line behind the command section.
pub open spec fn build_end(lines: Seq<Seq<char>>) -> int {
    match summary_start(lines) {
        Some(start) => start,
        None => lines.len() as int,
    }
}

/// The commands of the packet in `lines`.
pub open spec fn packet_commands(lines: Seq<Seq<char>>) -> Seq<Seq<char>> {
    match build_start(lines) {
        Some(start) => section_commands(lines.subrange(start + 1, build_end(lines))),
        None => Seq::empty(),
    }
}

/// The lines behind both sections.
pub open spec fn lines_behind_packet(lines: Seq<Seq<char>>) -> Seq<Seq<char>> {
    match (summary_start(lines), summary_end(lines)) {
        (Some(_), Some(end)) => lines.skip(end),
        _ => Seq::empty(),
    }
}

/// What takes the place of both sections.
pub open spec fn packet_replacement() -> Seq<Seq<char>> {
    seq![BUILD_TEST_COMMANDS_HEADING@, VALIDATION_NOTE@, SILENT_FINAL_INSTRUCTION@]
}

/// The lines that the model sees in place of `lines`, which hold a packet.
pub open spec fn visible_lines(lines: Seq<Seq<char>>) -> Seq<Seq<char>> {
    lines.take(build_start(lines)->0) + packet_replacement() + lines_behind_packet(lines)
}

/// The commands that `text` asks the controller to run.
pub open spec fn text_commands(text: Seq<char>) -> Seq<Seq<char>> {
    packet_commands(text::split_lines(text))
}

/// `text` asks the controller to run at least one command.
pub open spec fn is_pending(text: Seq<char>) -> bool {
    text_commands(text).len() > 0
}

/// What the model sees of `text`.
pub open spec fn visible_text(text: Seq<char>) -> Seq<char> {
    if is_pending(text) {
        text::join_lines(visible_lines(text::split_lines(text)))
    } else {
        text
    }
}

/// `first_heading` is the first match.
proof fn lemma_first_heading_is(lines: Seq<Seq<char>>, from: int, heading: Seq<char>, k: int)
    requires
        0 <= from <= k <= lines.len(),
        forall|i: int| from <= i < k ==> text::trimmed(#[trigger] lines[i]) != heading,
        k < lines.len() ==> text::trimmed(lines[k]) == heading,
    ensures
        first_heading(lines, from, heading) == (if k < lines.len() {
            Some(k)
        } else {
            None::<int>
        }),
    decreases k - from,
{
    if from < k {
        lemma_first_heading_is(lines, from + 1, heading, k);
    }
}

/// `checklist_end` is the first line outside.
proof fn lemma_checklist_end_is(lines: Seq<Seq<char>>, from: int, k: int)
    requires
        0 <= from <= k <= lines.len(),
        forall|i: int| from <= i < k ==> in_checklist(#[trigger] lines[i]),
        k < lines.len() ==> !in_checklist(lines[k]),
    ensures
        checklist_end(lines, from) == (if k < lines.len() {
            Some(k)
        } else {
            None::<int>
        }),
    decreases k - from,
{
    if from < k {
        lemma_checklist_end_is(lines, from + 1, k);
    }
}

/// Whether the trimmed line is an item of a checklist.
pub fn is_checklist_line(trimmed: &str) -> (b: bool)
    ensures
        b == is_list_item(trimmed@),
{
    proof {
        reveal_strlit("- ");
        reveal_strlit("- [ ]");
        reveal_strlit("- [x]");
        reveal_strlit("- [X]");
        assert forall|p: Seq<char>| #[trigger] p.is_prefix_of(trimmed@) && p.len() == 5 && p[0] == '-'
            && p[1] == ' ' implies "- "@.is_prefix_of(trimmed@) by {
            assert("- "@ =~= p.subrange(0, 2));
            assert("- "@ =~= trimmed@.subrange(0, 2));
        }
    }
    text::begins_with(trimmed, "- ") || text::begins_with(trimmed, "* ") || text::begins_with(
        trimmed,
        "- [ ]",
    ) || text::begins_with(trimmed, "- [x]") || text::begins_with(trimmed, "- [X]")
}

/// The two sections that a text holds, by line, and the commands of the first.
pub struct ControllerValidationPacket {
    pub build_start: usize,
    pub build_end: Option<usize>,
    pub summary_start: Option<usize>,
    pub summary_end: Option<usize>,
    pub commands: Vec<String>,
}

/// The index in `line` as a mathematical integer.
pub open spec fn line_index(line: Option<usize>) -> Option<int> {
    match line {
        Some(index) => Some(index as int),
        None => None,
    }
}

/// Finds the command section and the checklist of `text`.
pub fn parse_controller_validation_packet(text: &str) -> (r: Option<ControllerValidationPacket>)
    ensures
        r is Some <==> build_start(text::split_lines(text@)) is Some,
        r matches Some(packet) ==> {
            let lines = text::split_lines(text@);
            &&& build_start(lines) == Some(packet.build_start as int)
            &&& line_index(packet.build_end) == Some(build_end(lines))
            &&& line_index(packet.summary_start) == summary_start(lines)
            &&& line_index(packet.summary_end) == summary_end(lines)
            &&& text::string_views(packet.commands@) == packet_commands(lines)
        },
{
    let pieces = text::split_text(text);
    let ghost lines = text::views(pieces@);
    let mut start: Option<usize> = None;
    let mut summary: Option<usize> = None;
    let mut end: Option<usize> = None;
    let mut commands: Vec<String> = Vec::new();
    let mut in_fence = false;
    let mut index: usize = 0;
    proof {
        assert(text::string_views(commands@) =~= Seq::<Seq<char>>::empty());
    }
    while index < pieces.len() && end.is_none()
        invariant
            index <= pieces@.len(),
            lines == text::views(pieces@),
            lines.len() == pieces@.len(),
            forall|i: int| 0 <= i < lines.len() ==> #[trigger] lines[i] == pieces@[i]@,
            start is None ==> {
                &&& summary is None
                &&& end is None
                &&& commands@.len() == 0
                &&& !in_fence
                &&& forall|i: int|
                    0 <= i < index ==> text::trimmed(#[trigger] lines[i])
                        != BUILD_TEST_COMMANDS_HEADING@
            },
            start matches Some(b) ==> {
                &&& b < index
                &&& build_start(lines) == Some(b as int)
                &&& summary is None ==> {
                    let section = lines.subrange(b + 1, index as int);
                    &&& end is None
                    &&& in_fence == fence_open(section)
                    &&& text::string_views(commands@) == section_commands(section)
                    &&& forall|i: int|
                        b < i < index ==> text::trimmed(#[trigger] lines[i])
                            != SUMMARY_CHECKLIST_HEADING@
                }
                &&& summary matches Some(s) ==> {
                    &&& b < s < index
                    &&& summary_start(lines) == Some(s as int)
                    &&& text::string_views(commands@) == section_commands(
                        lines.subrange(b + 1, s as int),
                    )
                    &&& end is None ==> forall|i: int|
                        s < i < index ==> in_checklist(#[trigger] lines[i])
                    &&& end matches Some(e) ==> e < lines.len() && summary_end(lines) == Some(
                        e as int,
                    )
                }
            },
        decreases pieces@.len() - index,
    {
        let line: &str = pieces[index];
        let trimmed = text::trim_text(line);
        let ghost before = commands@;
        proof {
            assert(trimmed@ == text::trimmed(lines[index as int]));
            text::trimming_twice_is_trimming_once(lines[index as int]);
        }
        match start {
            None => {
                if text::same_text(trimmed, BUILD_TEST_COMMANDS_HEADING) {
                    start = Some(index);
                    proof {
                        lemma_first_heading_is(
                            lines,
                            0,
                            BUILD_TEST_COMMANDS_HEADING@,
                            index as int,
                        );
                        assert(lines.subrange(index + 1, index + 1) =~= Seq::<Seq<char>>::empty());
                        assert(text::string_views(commands@) =~= Seq::<Seq<char>>::empty());
                    }
                }
            },
            Some(b) => {
                match summary {
                    None => {
                        let ghost section = lines.subrange(b + 1, index as int);
                        let ghost longer = lines.subrange(b + 1, index + 1);
                        proof {
                            assert(longer.drop_last() =~= section);
                            assert(longer.last() == lines[index as int]);
                        }
                        if text::same_text(trimmed, SUMMARY_CHECKLIST_HEADING) {
                            summary = Some(index);
                            proof {
                                lemma_first_heading_is(
                                    lines,
                                    b + 1,
                                    SUMMARY_CHECKLIST_HEADING@,
                                    index as int,
                                );
                            }
                        } else if text::begins_with(trimmed, "```") {
                            in_fence = !in_fence;
                        } else if trimmed.is_empty() {
                        } else if in_fence {
                            commands.push(trimmed.to_owned());
                        } else {
                            push_command(&mut commands, trimmed);
                        }
                        proof {
                            if summary is None {
                                if in_fence && commands@.len() > before.len() {
                                    assert(text::string_views(commands@) =~= text::string_views(
                                        before,
                                    ).push(trimmed@));
                                }
                            }
                        }
                    },
                    Some(s) => {
                        if trimmed.is_empty() || is_checklist_line(trimmed) || text::begins_with(
                            trimmed,
                            "```",
                        ) {
                        } else {
                            end = Some(index);
                            proof {
                                lemma_checklist_end_is(lines, s + 1, index as int);
                            }
                        }
                    },
                }
            },
        }
        index = index + 1;
    }
    let build_start = match start {
        Some(b) => b,
        None => {
            proof {
                lemma_first_heading_is(
                    lines,
                    0,
                    BUILD_TEST_COMMANDS_HEADING@,
                    lines.len() as int,
                );
            }
            return None;
        },
    };
    proof {
        if summary is None {
            lemma_first_heading_is(
                lines,
                build_start + 1,
                SUMMARY_CHECKLIST_HEADING@,
                lines.len() as int,
            );
        } else if end is None {
            lemma_checklist_end_is(lines, summary->0 + 1, lines.len() as int);
        }
    }
    let build_end = match summary {
        Some(s) => Some(s),
        None => Some(pieces.len()),
    };
    Some(
        ControllerValidationPacket {
            build_start,
            build_end,
            summary_start: summary,
            summary_end: end,
            commands,
        },
    )
}

/// Adds the command that a trimmed line outside a fenced block gives.
fn push_command(commands: &mut Vec<String>, trimmed: &str)
    requires
        text::trimmed(trimmed@) == trimmed@,
        trimmed@.len() > 0,
        !is_fence(trimmed@),
    ensures
        text::string_views(final(commands)@) == (match line_command(trimmed@, false) {
            Some(command) => text::string_views(old(commands)@).push(command),
            None => text::string_views(old(commands)@),
        }),
{
    proof {
        reveal_strlit("- ");
        reveal_strlit("* ");
    }
    let marked = match text::strip_prefix(trimmed, "- ") {
        Some(item) => Some(item),
        None => text::strip_prefix(trimmed, "* "),
    };
    match marked {
        Some(item) => {
            let command = text::trim_text(item);
            if !command.is_empty() {
                commands.push(command.to_owned());
            }
        },
        None => {
            commands.push(trimmed.to_owned());
        },
    }
    proof {
        if commands@.len() > old(commands)@.len() {
            assert(text::string_views(commands@) =~= text::string_views(old(commands)@).push(
                commands@.last()@,
            ));
        }
    }
}

/// What the model sees of a text, and what the controller runs for it.
pub struct ControllerValidationTransform {
    pub model_visible_text: String,
    pub commands: Vec<String>,
    pub validation_pending: bool,
}

/// Takes the packet out of `text`. A text without commands stays as it is.
pub fn transform_packet_for_controller_validation(text: &str) -> (r: ControllerValidationTransform)
    ensures
        r.model_visible_text@ == visible_text(text@),
        text::string_views(r.commands@) == text_commands(text@),
        r.validation_pending == is_pending(text@),
{
    let parsed = match parse_controller_validation_packet(text) {
        Some(parsed) => parsed,
        None => {
            let commands: Vec<String> = Vec::new();
            proof {
                assert(text::string_views(commands@) =~= Seq::<Seq<char>>::empty());
            }
            return ControllerValidationTransform {
                model_visible_text: text.to_owned(),
                commands,
                validation_pending: false,
            };
        },
    };
    if parsed.commands.is_empty() {
        return ControllerValidationTransform {
            model_visible_text: text.to_owned(),
            commands: parsed.commands,
            validation_pending: false,
        };
    }
    let pieces = text::split_text(text);
    let ghost lines = text::views(pieces@);
    proof {
        lemma_packet_bounds(lines);
    }
    let mut visible: Vec<&str> = Vec::new();
    push_lines(&mut visible, &pieces, 0, parsed.build_start);
    visible.push(BUILD_TEST_COMMANDS_HEADING);
    visible.push(VALIDATION_NOTE);
    visible.push(SILENT_FINAL_INSTRUCTION);
    proof {
        assert(text::views(visible@) =~= lines.take(parsed.build_start as int)
            + packet_replacement());
    }
    if parsed.summary_start.is_some() {
        if let Some(end) = parsed.summary_end {
            push_lines(&mut visible, &pieces, end, pieces.len());
            proof {
                assert(lines.subrange(end as int, lines.len() as int) =~= lines.skip(end as int));
            }
        }
    }
    proof {
        assert(text::views(visible@) =~= visible_lines(lines));
    }
    ControllerValidationTransform {
        model_visible_text: text::join_text(&visible),
        commands: parsed.commands,
        validation_pending: true,
    }
}

/// Appends the lines `from..to` of `pieces` to `visible`.
fn push_lines<'a>(visible: &mut Vec<&'a str>, pieces: &Vec<&'a str>, from: usize, to: usize)
    requires
        from <= to <= pieces@.len(),
    ensures
        text::views(final(visible)@) == text::views(old(visible)@) + text::views(
            pieces@,
        ).subrange(from as int, to as int),
{
    let mut i: usize = from;
    let ghost start = text::views(visible@);
    let ghost lines = text::views(pieces@);
    proof {
        assert(start + lines.subrange(from as int, from as int) =~= start);
    }
    while i < to
        invariant
            from <= i <= to <= pieces@.len(),
            lines == text::views(pieces@),
            text::views(visible@) == start + lines.subrange(from as int, i as int),
        decreases to - i,
    {
        let ghost before = visible@;
        visible.push(pieces[i]);
        proof {
            assert(text::views(visible@) =~= text::views(before).push(lines[i as int]));
            assert(start + lines.subrange(from as int, i + 1) =~= (start + lines.subrange(
                from as int,
                i as int,
            )).push(lines[i as int]));
        }
        i = i + 1;
    }
}

/// The sections of a packet follow one another within the text.
proof fn lemma_packet_bounds(lines: Seq<Seq<char>>)
    ensures
        build_start(lines) matches Some(start) ==> 0 <= start < build_end(lines) <= lines.len(),
        summary_start(lines) matches Some(start) ==> start < lines.len(),
        summary_end(lines) matches Some(end) ==> summary_start(lines) is Some && summary_start(
            lines,
        )->0 < end < lines.len(),
{
    lemma_first_heading_bounds(lines, 0, BUILD_TEST_COMMANDS_HEADING@);
    if let Some(start) = build_start(lines) {
        lemma_first_heading_bounds(lines, start + 1, SUMMARY_CHECKLIST_HEADING@);
        if let Some(summary) = summary_start(lines) {
            lemma_checklist_end_bounds(lines, summary + 1);
        }
    }
}

/// `first_heading` finds a line that says the heading, and it is the first.
proof fn lemma_first_heading_bounds(lines: Seq<Seq<char>>, from: int, heading: Seq<char>)
    ensures
        first_heading(lines, from, heading) matches Some(i) ==> from <= i < lines.len()
            && text::trimmed(lines[i]) == heading,
    decreases lines.len() - from,
{
    if from < lines.len() && text::trimmed(lines[from]) != heading {
        lemma_first_heading_bounds(lines, from + 1, heading);
    }
}

/// `checklist_end` is a line of the text.
proof fn lemma_checklist_end_bounds(lines: Seq<Seq<char>>, from: int)
    ensures
        checklist_end(lines, from) matches Some(i) ==> from <= i < lines.len(),
    decreases lines.len() - from,
{
    if from < lines.len() && in_checklist(lines[from]) {
        lemma_checklist_end_bounds(lines, from + 1);
    }
}

/// `item` is a text that asks the controller to run commands.
pub open spec fn is_pending_item(item: UserInput) -> bool {
    item matches UserInput::Text { text, .. } && is_pending(text@)
}

/// The index of the first item that asks the controller to run commands.
pub open spec fn first_pending_item(items: Seq<UserInput>) -> Option<int>
    decreases items.len(),
{
    if items.len() == 0 {
        None
    } else {
        match first_pending_item(items.drop_last()) {
            Some(i) => Some(i),
            None => if is_pending_item(items.last()) {
                Some(items.len() - 1)
            } else {
                None
            },
        }
    }
}

/// `after` is what the model sees of `before`, a text with a packet. The marks
/// in the text are gone, since they no longer fit it.
pub open spec fn is_transformed_item(before: UserInput, after: UserInput) -> bool {
    &&& before is Text
    &&& after matches UserInput::Text { text: shown, text_elements }
    &&& shown@ == visible_text(before->text@)
    &&& text_elements@ == Seq::<crate::user_input::TextElement>::empty()
}

/// `after` and `state` are what the first packet among `before` makes of them.
pub open spec fn are_transformed_items(
    before: Seq<UserInput>,
    after: Seq<UserInput>,
    state: Option<ControllerValidationState>,
) -> bool {
    &&& after.len() == before.len()
    &&& match first_pending_item(before) {
        None => after == before && state is None,
        Some(k) => {
            &&& 0 <= k < before.len()
            &&& forall|i: int| 0 <= i < before.len() && i != k ==> #[trigger] after[i] == before[i]
            &&& is_transformed_item(before[k], after[k])
            &&& state matches Some(validation) && {
                &&& text::string_views(validation.commands@) == text_commands(before[k]->text@)
                &&& validation.attempt == 0
            }
        },
    }
}

/// Takes the packet out of the first item that holds one with commands. Every
/// other item stays as it is.
pub fn transform_user_inputs_for_controller_validation(items: Vec<UserInput>) -> (r: (
    Vec<UserInput>,
    Option<ControllerValidationState>,
))
    ensures
        are_transformed_items(items@, r.0@, r.1),
{
    let mut controller_validation: Option<ControllerValidationState> = None;
    let mut transformed: Vec<UserInput> = Vec::new();
    let ghost before = items@;
    proof {
        assert(transformed@ =~= before.take(0));
    }
    for item in it: items
        invariant
            it.seq() == before,
            are_transformed_items(before.take(it.index()), transformed@, controller_validation),
    {
        let ghost k = it.index();
        let ghost done = transformed@;
        proof {
            assert(before.take(k + 1).drop_last() =~= before.take(k));
            assert(before.take(k + 1).last() == item);
        }
        if controller_validation.is_some() {
            transformed.push(item);
        } else {
            match item {
                UserInput::Text { text, text_elements } => {
                    let transform = transform_packet_for_controller_validation(&text);
                    if !transform.validation_pending {
                        transformed.push(UserInput::Text { text, text_elements });
                    } else {
                        controller_validation = Some(
                            ControllerValidationState {
                                commands: transform.commands,
                                attempt: 0,
                            },
                        );
                        transformed.push(
                            UserInput::Text {
                                text: transform.model_visible_text,
                                text_elements: Vec::new(),
                            },
                        );
                    }
                },
                other => {
                    transformed.push(other);
                },
            }
        }
        proof {
            if first_pending_item(before.take(k + 1)) is None {
                assert(transformed@ =~= before.take(k + 1));
            }
        }
    }
    proof {
        assert(before.take(before.len() as int) =~= before);
    }
    (transformed, controller_validation)
}

/// The commands that the controller still has to see pass, and how often it
/// has asked for a repair.
#[derive(Debug, PartialEq, Eq)]
pub struct ControllerValidationState {
    pub commands: Vec<String>,
    pub attempt: u8,
}

impl Clone for ControllerValidationState {
    fn clone(&self) -> (state: Self)
        ensures
            state.commands@ == self.commands@,
            state.attempt == self.attempt,
    {
        let commands = self.commands.clone();
        assert(commands@ =~= self.commands@);
        ControllerValidationState { commands, attempt: self.attempt }
    }
}

impl Default for ControllerValidationState {
    fn default() -> (state: Self)
        ensures
            state.commands@ == Seq::<String>::empty(),
            state.attempt == 0,
    {
        ControllerValidationState { commands: Vec::new(), attempt: 0 }
    }
}

/// The first index, not before `from`, of `command` in `commands`.
pub open spec fn first_command(commands: Seq<Seq<char>>, from: int, command: Seq<char>) -> Option<
    int,
>
    decreases commands.len() - from,
{
    if from >= commands.len() {
        None
    } else if commands[from] == command {
        Some(from)
    } else {
        first_command(commands, from + 1, command)
    }
}

/// `items` with the one at `index` moved to the front.
pub open spec fn moved_to_front<A>(items: Seq<A>, index: int) -> Seq<A> {
    seq![items[index]] + items.remove(index)
}

/// `commands` with the first one that reads `command` moved to the front.
pub open spec fn command_first(commands: Seq<String>, command: Seq<char>) -> Seq<String> {
    match first_command(text::string_views(commands), 0, command) {
        Some(index) => moved_to_front(commands, index),
        None => commands,
    }
}

/// `first_command` is the first match.
proof fn lemma_first_command_is(
    commands: Seq<Seq<char>>,
    from: int,
    command: Seq<char>,
    k: int,
)
    requires
        0 <= from <= k <= commands.len(),
        forall|i: int| from <= i < k ==> #[trigger] commands[i] != command,
        k < commands.len() ==> commands[k] == command,
    ensures
        first_command(commands, from, command) == (if k < commands.len() {
            Some(k)
        } else {
            None::<int>
        }),
    decreases k - from,
{
    if from < k {
        lemma_first_command_is(commands, from + 1, command, k);
    }
}

impl ControllerValidationState {
    pub fn commands(&self) -> (commands: &[String])
        ensures
            commands@ == self.commands@,
    {
        self.commands.as_slice()
    }

    pub fn attempt(&self) -> (attempt: u8)
        ensures
            attempt == self.attempt,
    {
        self.attempt
    }

    /// Counts one more attempt, as far as the counter goes.
    pub fn increment_attempt(&mut self)
        ensures
            final(self).commands == old(self).commands,
            final(self).attempt == (if old(self).attempt < u8::MAX {
                old(self).attempt + 1
            } else {
                u8::MAX as int
            }),
    {
        self.attempt = self.attempt.saturating_add(1);
    }

    pub fn has_attempts_remaining(&self, max_attempts: u8) -> (remaining: bool)
        ensures
            remaining == (self.attempt < max_attempts),
    {
        self.attempt < max_attempts
    }

    /// Moves `failed_command` to the front, if it is one of the commands.
    pub fn failed_command_first(&mut self, failed_command: &str)
        ensures
            final(self).attempt == old(self).attempt,
            final(self).commands@ == command_first(old(self).commands@, failed_command@),
    {
        let mut position: usize = 0;
        let ghost views = text::string_views(self.commands@);
        while position < self.commands.len()
            invariant
                position <= self.commands@.len(),
                *self == *old(self),
                views == text::string_views(self.commands@),
                forall|i: int| 0 <= i < position ==> #[trigger] views[i] != failed_command@,
            decreases self.commands@.len() - position,
        {
            assert(views[position as int] == self.commands@[position as int]@);
            if text::same_text(self.commands[position].as_str(), failed_command) {
                proof {
                    lemma_first_command_is(views, 0, failed_command@, position as int);
                }
                let command = self.commands.remove(position);
                self.commands.insert(0, command);
                proof {
                    assert(self.commands@ =~= moved_to_front(
                        old(self).commands@,
                        position as int,
                    ));
                }
                return ;
            }
            position = position + 1;
        }
        proof {
            lemma_first_command_is(views, 0, failed_command@, views.len() as int);
        }
    }
}

/// How a run of the validation commands ended.
#[derive(Debug, Clone, PartialEq, Eq)]
pub enum ControllerValidationRunResult {
    /// Every command passed.
    Passed { message: String },
    /// `failed_command` did not.
    Failed { message: String, failed_command: String, exit_code: i32 },
}

pub fn validation_success_message() -> (message: &'static str)
    ensures
        message@ == "All checks passed."@,
{
    "All checks passed."
}

/// The last `max_lines` lines of `output`, or all of it if it has no more.
pub open spec fn last_lines(output: Seq<char>, max_lines: nat) -> Seq<char> {
    let lines = text::text_lines(output);
    if lines.len() > max_lines {
        text::join_lines(lines.skip(lines.len() - max_lines))
    } else {
        output
    }
}

/// A failure summary leaves something of `output` out.
pub open spec fn is_cut(output: Seq<char>, max_lines: nat) -> bool {
    ||| text::text_lines(output).len() > max_lines
    ||| text::utf8_len(last_lines(output, max_lines)) > MAX_FAILURE_OUTPUT_CHARS
}

/// What a failure summary shows of `output`.
pub open spec fn shown_output(output: Seq<char>, max_lines: nat) -> Seq<char> {
    let tail = text::utf8_tail(last_lines(output, max_lines), MAX_FAILURE_OUTPUT_CHARS as nat);
    if is_cut(output, max_lines) {
        "...\n"@ + tail
    } else {
        tail
    }
}

/// The summary of a failed command.
pub open spec fn failure_summary(
    command: Seq<char>,
    exit_code: int,
    output: Seq<char>,
    max_lines: nat,
) -> Seq<char> {
    "Validation failed for command: `"@ + command + "`\nExit code: "@ + text::decimal(exit_code)
        + "\nOutput:\n"@ + shown_output(output, max_lines)
}

/// Says which command failed and how, with the end of its output.
pub fn compact_validation_failure_summary(
    command: &str,
    exit_code: i32,
    output: &str,
    max_lines: usize,
) -> (summary: String)
    ensures
        summary@ == failure_summary(command@, exit_code as int, output@, max_lines as nat),
{
    let lines = text::lines_of(output);
    let ghost all = text::views(lines@);
    let mut joined = String::new();
    let mut cut = false;
    let capped: &str = if lines.len() > max_lines {
        let mut kept: Vec<&str> = Vec::new();
        let first = lines.len() - max_lines;
        push_lines(&mut kept, &lines, first, lines.len());
        proof {
            assert(text::views(kept@) =~= all.skip(first as int));
        }
        joined = text::join_text(&kept);
        cut = true;
        joined.as_str()
    } else {
        output
    };
    if capped.as_bytes().len() > MAX_FAILURE_OUTPUT_CHARS {
        cut = true;
    }
    let tail = text::tail_of(capped, MAX_FAILURE_OUTPUT_CHARS);
    let mut summary = "Validation failed for command: `".to_owned();
    summary.append(command);
    summary.append("`\nExit code: ");
    text::append_decimal(&mut summary, exit_code);
    summary.append("\nOutput:\n");
    let ghost head = summary@;
    if cut {
        summary.append("...\n");
    }
    summary.append(tail);
    proof {
        assert(summary@ =~= head + shown_output(output@, max_lines as nat));
    }
    summary
}

/// The prompt that asks for the repair of a failure.
pub open spec fn repair_prompt(failure_summary: Seq<char>) -> Seq<char> {
    failure_summary
        + "\n\nFix this validation failure only. Do not output a final summary. Validation remains controller-managed."@
}

pub fn build_validation_repair_prompt(failure_summary: &str) -> (prompt: String)
    ensures
        prompt@ == repair_prompt(failure_summary@),
{
    let mut prompt = failure_summary.to_owned();
    prompt.append(
        "\n\nFix this validation failure only. Do not output a final summary. Validation remains controller-managed.",
    );
    prompt
}

/// What is said about the start of a command.
pub open spec fn start_message(command: Seq<char>) -> Seq<char> {
    "Running build/test command: "@ + command
}

/// Says that `command` is about to run.
pub fn controller_validation_command_start_message(command: &str) -> (message: String)
    ensures
        message@ == "Running build/test command: "@ + command@,
        message@ == start_message(command@),
{
    let mut message = "Running build/test command: ".to_owned();
    message.append(command);
    message
}

/// What is said about the end of a command.
pub open spec fn completion_message(command: Seq<char>, exit_code: int) -> Seq<char> {
    (if exit_code == 0 {
        "Build/test command passed: "@
    } else {
        "Build/test command failed: "@
    }) + command + " (exit code "@ + text::decimal(exit_code) + ")"@
}

/// Says how `command` ended. It passed with the exit code zero alone.
pub fn controller_validation_command_completion_message(command: &str, exit_code: i32) -> (message:
    String)
    ensures
        message@ == (if exit_code == 0 {
            "Build/test command passed: "@
        } else {
            "Build/test command failed: "@
        }) + command@ + " (exit code "@ + text::decimal(exit_code as int) + ")"@,
        message@ == completion_message(command@, exit_code as int),
{
    let mut message = if exit_code == 0 {
        "Build/test command passed: ".to_owned()
    } else {
        "Build/test command failed: ".to_owned()
    };
    message.append(command);
    message.append(" (exit code ");
    text::append_decimal(&mut message, exit_code);
    message.append(")");
    message
}

/// The lines of what the model sees of a text with a packet are the lines
/// before the command section, the notice, and the lines behind the checklist.
/// So no line of either section is shown.
pub proof fn the_model_sees_the_lines_around_the_packet(text: Seq<char>)
    requires
        is_pending(text),
    ensures
        text::split_lines(visible_text(text)) == visible_lines(text::split_lines(text)),
{
    let lines = text::split_lines(text);
    text::split_lines_hold_no_newline(text);
    lemma_packet_bounds(lines);
    let visible = visible_lines(lines);
    let start = build_start(lines)->0;
    reveal_strlit("Build/test commands:");
    reveal_strlit("Validation is controller-managed.");
    reveal_strlit(
        "Controller-managed validation is pending. Make the required edits only. Do not output a final answer, summary, checklist, or validation report. When edits are complete, end the turn silently.",
    );
    assert forall|i: int| 0 <= i < visible.len() implies !(#[trigger] visible[i]).contains('\n') by {
        if i < start {
            assert(visible[i] == lines[i]);
        } else if i >= start + 3 {
            assert(visible[i] == lines[summary_end(lines)->0 + (i - start - 3)]);
        }
    }
    text::split_of_join_is_the_lines(visible);
}

/// A text without the heading of a command section asks for nothing, and the
/// model sees all of it.
pub proof fn a_text_without_the_heading_stays_as_it_is(text: Seq<char>)
    requires
        forall|i: int|
            0 <= i < text::split_lines(text).len() ==> text::trimmed(
                #[trigger] text::split_lines(text)[i],
            ) != BUILD_TEST_COMMANDS_HEADING@,
    ensures
        !is_pending(text),
        visible_text(text) == text,
{
    let lines = text::split_lines(text);
    lemma_first_heading_is(lines, 0, BUILD_TEST_COMMANDS_HEADING@, lines.len() as int);
}

/// `command` is one trimmed line that is not blank.
pub open spec fn is_clean_command(command: Seq<char>) -> bool {
    &&& command.len() > 0
    &&& text::trimmed(command) == command
    &&& !command.contains('\n')
}

/// Every command of a text is one trimmed line that is not blank, and no line
/// of the command section gives two.
pub proof fn commands_are_clean_lines(text: Seq<char>)
    ensures
        forall|i: int|
            0 <= i < text_commands(text).len() ==> is_clean_command(#[trigger] text_commands(text)[i]),
        text_commands(text).len() <= text::split_lines(text).len(),
{
    let lines = text::split_lines(text);
    text::split_lines_hold_no_newline(text);
    lemma_packet_bounds(lines);
    if let Some(start) = build_start(lines) {
        let section = lines.subrange(start + 1, build_end(lines));
        assert forall|i: int| 0 <= i < section.len() implies !(#[trigger] section[i]).contains(
            '\n',
        ) by {
            assert(section[i] == lines[start + 1 + i]);
        }
        lemma_section_commands_are_clean(section);
    }
}

/// Every command of a section is clean.
proof fn lemma_section_commands_are_clean(section: Seq<Seq<char>>)
    requires
        forall|i: int| 0 <= i < section.len() ==> !(#[trigger] section[i]).contains('\n'),
    ensures
        forall|i: int|
            0 <= i < section_commands(section).len() ==> is_clean_command(
                #[trigger] section_commands(section)[i],
            ),
        section_commands(section).len() <= section.len(),
    decreases section.len(),
{
    if section.len() > 0 {
        let before = section.drop_last();
        assert forall|i: int| 0 <= i < before.len() implies !(#[trigger] before[i]).contains(
            '\n',
        ) by {
            assert(before[i] == section[i]);
        }
        lemma_section_commands_are_clean(before);
        let line = section.last();
        assert(!section[section.len() - 1].contains('\n'));
        let trimmed = text::trimmed(line);
        lemma_trimmed_keeps_newlines_out(line);
        text::trimming_twice_is_trimming_once(line);
        reveal_strlit("- ");
        reveal_strlit("* ");
        if is_list_item(trimmed) {
            let item = trimmed.skip(2);
            assert forall|i: int| 0 <= i < item.len() implies item[i] != '\n' by {
                assert(trimmed.contains(trimmed[i + 2]));
            }
            lemma_trimmed_keeps_newlines_out(item);
            text::trimming_twice_is_trimming_once(item);
        }
    }
}

/// Trimming brings no newline in.
proof fn lemma_trimmed_keeps_newlines_out(line: Seq<char>)
    requires
        !line.contains('\n'),
    ensures
        !text::trimmed(line).contains('\n'),
{
    text::trimmed_text_is_a_part(line);
    let trimmed = text::trimmed(line);
    let (from, to) = choose|from: int, to: int|
        0 <= from <= to <= line.len() && trimmed == #[trigger] line.subrange(from, to);
    assert forall|i: int| 0 <= i < trimmed.len() implies trimmed[i] != '\n' by {
        assert(trimmed[i] == line[from + i]);
        assert(line.contains(line[from + i]));
    }
}

/// Moving the failed command to the front keeps the commands, brings that one
/// first if it is among them, and done again changes nothing more.
pub proof fn failed_command_first_keeps_the_commands(commands: Seq<String>, failed: Seq<char>)
    ensures
        command_first(commands, failed).to_multiset() == commands.to_multiset(),
        text::string_views(commands).contains(failed) ==> command_first(commands, failed)[0]@
            == failed,
        !text::string_views(commands).contains(failed) ==> command_first(commands, failed)
            == commands,
        command_first(command_first(commands, failed), failed) == command_first(commands, failed),
{
    let views = text::string_views(commands);
    lemma_first_command_finds(views, 0, failed);
    match first_command(views, 0, failed) {
        Some(index) => {
            let moved = moved_to_front(commands, index);
            broadcast use vstd::seq_lib::group_to_multiset_ensures;

            vstd::seq_lib::lemma_multiset_commutative(seq![commands[index]], commands.remove(index));
            assert(seq![commands[index]] =~= Seq::<String>::empty().push(commands[index]));
            assert(moved.to_multiset() =~= commands.to_multiset());
            assert(text::string_views(moved)[0] == failed);
            assert(moved_to_front(moved, 0) =~= moved);
        },
        None => {},
    }
}

/// `first_command` finds a command that is there.
proof fn lemma_first_command_finds(commands: Seq<Seq<char>>, from: int, command: Seq<char>)
    requires
        0 <= from,
    ensures
        first_command(commands, from, command) matches Some(i) ==> from <= i < commands.len()
            && commands[i] == command,
        first_command(commands, from, command) is None ==> forall|i: int|
            from <= i < commands.len() ==> #[trigger] commands[i] != command,
    decreases commands.len() - from,
{
    if from < commands.len() && commands[from] != command {
        lemma_first_command_finds(commands, from + 1, command);
    }
}

/// What stands in a text with a packet, but neither before the command section
/// nor behind the checklist nor in the notice, is hidden from the model.
pub proof fn what_stands_only_in_the_packet_is_hidden(text: Seq<char>, needle: Seq<char>)
    requires
        is_pending(text),
        needle.len() > 0,
        !needle.contains('\n'),
        ({
            let lines = text::split_lines(text);
            let around = lines.take(build_start(lines)->0) + packet_replacement()
                + lines_behind_packet(lines);
            forall|i: int|
                0 <= i < around.len() ==> !text::occurs_in(needle, #[trigger] around[i])
        }),
    ensures
        !text::occurs_in(needle, visible_text(text)),
{
    if text::occurs_in(needle, visible_text(text)) {
        text::what_occurs_in_joined_lines_occurs_in_a_line(
            needle,
            visible_lines(text::split_lines(text)),
        );
    }
}

/// List items begin with a dash or a star and a space, fences with three
/// backticks.
pub proof fn items_and_fences_by_their_characters(t: Seq<char>)
    ensures
        is_list_item(t) <==> t.len() >= 2 && (t[0] == '-' || t[0] == '*') && t[1] == ' ',
        is_fence(t) <==> t.len() >= 3 && t[0] == '`' && t[1] == '`' && t[2] == '`',
{
    reveal_strlit("- ");
    reveal_strlit("* ");
    reveal_strlit("```");
    if t.len() >= 2 && t[0] == '-' && t[1] == ' ' {
        assert("- "@ =~= t.subrange(0, 2));
    }
    if t.len() >= 2 && t[0] == '*' && t[1] == ' ' {
        assert("* "@ =~= t.subrange(0, 2));
    }
    if t.len() >= 3 && t[0] == '`' && t[1] == '`' && t[2] == '`' {
        assert("```"@ =~= t.subrange(0, 3));
    }
    if "- "@.is_prefix_of(t) {
        assert(t.subrange(0, 2)[0] == t[0] && t.subrange(0, 2)[1] == t[1]);
    }
    if "* "@.is_prefix_of(t) {
        assert(t.subrange(0, 2)[0] == t[0] && t.subrange(0, 2)[1] == t[1]);
    }
    if "```"@.is_prefix_of(t) {
        let p = t.subrange(0, 3);
        assert(p[0] == t[0] && p[1] == t[1] && p[2] == t[2]);
    }
}

/// A text that holds both sections, in parts: the lines `head`, the heading
/// `build` of the commands, the lines `section`, the heading `summary` of the
/// checklist, its lines `checklist`, and the lines `tail`. The checklist goes as
/// far as its lines are blank, begin with a dash or a star and a space, or begin
/// with three backticks; the first other line begins the tail. The commands are
/// those of `section`. If there are any, the model sees the head, the notice and
/// the whole tail, and nothing else; if not, it sees all of the text.
pub proof fn a_packet_with_a_checklist_is_taken_out(
    text: Seq<char>,
    head: Seq<Seq<char>>,
    build: Seq<char>,
    section: Seq<Seq<char>>,
    summary: Seq<char>,
    checklist: Seq<Seq<char>>,
    tail: Seq<Seq<char>>,
)
    requires
        text::split_lines(text) == head + seq![build] + section + seq![summary] + checklist + tail,
        text::trimmed(build) == "Build/test commands:"@,
        text::trimmed(summary) == "Summary checklist:"@,
        forall|i: int|
            0 <= i < head.len() ==> text::trimmed(#[trigger] head[i]) != "Build/test commands:"@,
        forall|i: int|
            0 <= i < section.len() ==> text::trimmed(#[trigger] section[i])
                != "Summary checklist:"@,
        forall|i: int|
            0 <= i < checklist.len() ==> {
                let t = text::trimmed(#[trigger] checklist[i]);
                ||| t.len() == 0
                ||| t.len() >= 2 && (t[0] == '-' || t[0] == '*') && t[1] == ' '
                ||| t.len() >= 3 && t[0] == '`' && t[1] == '`' && t[2] == '`'
            },
        tail.len() > 0 ==> {
            let t = text::trimmed(tail[0]);
            &&& t.len() > 0
            &&& !(t.len() >= 2 && (t[0] == '-' || t[0] == '*') && t[1] == ' ')
            &&& !(t.len() >= 3 && t[0] == '`' && t[1] == '`' && t[2] == '`')
        },
    ensures
        ({
            let lines = text::split_lines(text);
            let s = head.len() + 1 + section.len();
            let e = s + 1 + checklist.len();
            &&& build_start(lines) == Some(head.len() as int)
            &&& build_end(lines) == s
            &&& summary_start(lines) == Some(s as int)
            &&& summary_end(lines) == (if tail.len() > 0 {
                Some(e as int)
            } else {
                None
            })
        }),
        text_commands(text) == section_commands(section),
        is_pending(text) <==> section_commands(section).len() > 0,
        section_commands(section).len() > 0 ==> text::split_lines(visible_text(text)) == head
            + seq![
            "Build/test commands:"@,
            "Validation is controller-managed."@,
            "Controller-managed validation is pending. Make the required edits only. Do not output a final answer, summary, checklist, or validation report. When edits are complete, end the turn silently."@,
        ] + tail,
        section_commands(section).len() == 0 ==> visible_text(text) == text,
{
    let lines = text::split_lines(text);
    let b = head.len() as int;
    let s = b + 1 + section.len();
    let e = s + 1 + checklist.len();
    assert forall|i: int| 0 <= i < b implies text::trimmed(#[trigger] lines[i])
        != "Build/test commands:"@ by {
        assert(lines[i] == head[i]);
    }
    assert(lines[b] == build);
    lemma_first_heading_is(lines, 0, BUILD_TEST_COMMANDS_HEADING@, b);
    assert forall|i: int| b + 1 <= i < s implies text::trimmed(#[trigger] lines[i])
        != "Summary checklist:"@ by {
        assert(lines[i] == section[i - b - 1]);
    }
    assert(lines[s] == summary);
    lemma_first_heading_is(lines, b + 1, SUMMARY_CHECKLIST_HEADING@, s);
    assert forall|i: int| s + 1 <= i < e implies in_checklist(#[trigger] lines[i]) by {
        assert(lines[i] == checklist[i - s - 1]);
        items_and_fences_by_their_characters(text::trimmed(lines[i]));
    }
    if tail.len() > 0 {
        assert(lines[e] == tail[0]);
        items_and_fences_by_their_characters(text::trimmed(tail[0]));
    }
    lemma_checklist_end_is(lines, s + 1, e);
    assert(lines.subrange(b + 1, s) =~= section);
    if is_pending(text) {
        the_model_sees_the_lines_around_the_packet(text);
        assert(lines.take(b) =~= head);
        if tail.len() > 0 {
            assert(lines.skip(e) =~= tail);
        } else {
            assert(tail =~= Seq::<Seq<char>>::empty());
        }
    }
}

/// A text that holds the commands without a checklist behind them, in parts: the
/// lines `head`, the heading `build` of the commands, and the lines `section`,
/// which go to the end of the text. The commands are those of `section`. If
/// there are any, the model sees the head and the notice, and nothing else.
pub proof fn a_packet_without_a_checklist_goes_to_the_end(
    text: Seq<char>,
    head: Seq<Seq<char>>,
    build: Seq<char>,
    section: Seq<Seq<char>>,
)
    requires
        text::split_lines(text) == head + seq![build] + section,
        text::trimmed(build) == "Build/test commands:"@,
        forall|i: int|
            0 <= i < head.len() ==> text::trimmed(#[trigger] head[i]) != "Build/test commands:"@,
        forall|i: int|
            0 <= i < section.len() ==> text::trimmed(#[trigger] section[i])
                != "Summary checklist:"@,
    ensures
        ({
            let lines = text::split_lines(text);
            &&& build_start(lines) == Some(head.len() as int)
            &&& build_end(lines) == lines.len()
            &&& summary_start(lines) is None
            &&& summary_end(lines) is None
        }),
        text_commands(text) == section_commands(section),
        is_pending(text) <==> section_commands(section).len() > 0,
        section_commands(section).len() > 0 ==> text::split_lines(visible_text(text)) == head
            + seq![
            "Build/test commands:"@,
            "Validation is controller-managed."@,
            "Controller-managed validation is pending. Make the required edits only. Do not output a final answer, summary, checklist, or validation report. When edits are complete, end the turn silently."@,
        ],
        section_commands(section).len() == 0 ==> visible_text(text) == text,
{
    let lines = text::split_lines(text);
    let b = head.len() as int;
    let n = lines.len() as int;
    assert forall|i: int| 0 <= i < b implies text::trimmed(#[trigger] lines[i])
        != "Build/test commands:"@ by {
        assert(lines[i] == head[i]);
    }
    assert(lines[b] == build);
    lemma_first_heading_is(lines, 0, BUILD_TEST_COMMANDS_HEADING@, b);
    assert forall|i: int| b + 1 <= i < n implies text::trimmed(#[trigger] lines[i])
        != "Summary checklist:"@ by {
        assert(lines[i] == section[i - b - 1]);
    }
    lemma_first_heading_is(lines, b + 1, SUMMARY_CHECKLIST_HEADING@, n);
    assert(lines.subrange(b + 1, n) =~= section);
    if is_pending(text) {
        the_model_sees_the_lines_around_the_packet(text);
        assert(lines.take(b) =~= head);
    }
}

/// A text none of whose lines says "Build/test commands:" holds no packet.
pub proof fn without_its_heading_there_is_no_packet(text: Seq<char>)
    requires
        forall|i: int|
            0 <= i < text::split_lines(text).len() ==> text::trimmed(
                #[trigger] text::split_lines(text)[i],
            ) != "Build/test commands:"@,
    ensures
        build_start(text::split_lines(text)) is None,
        text_commands(text).len() == 0,
        visible_text(text) == text,
{
    a_text_without_the_heading_stays_as_it_is(text);
    let lines = text::split_lines(text);
    lemma_first_heading_is(lines, 0, BUILD_TEST_COMMANDS_HEADING@, lines.len() as int);
}

/// One line alone gives no command if it is blank or begins with three
/// backticks, what follows its marker if it is a list item, and else itself;
/// each without the white space around it.
pub proof fn a_line_gives_its_command(line: Seq<char>)
    ensures
        ({
            let t = text::trimmed(line);
            if t.len() == 0 || (t.len() >= 3 && t[0] == '`' && t[1] == '`' && t[2] == '`') {
                section_commands(seq![line]).len() == 0
            } else if t.len() >= 2 && (t[0] == '-' || t[0] == '*') && t[1] == ' ' {
                section_commands(seq![line]) == seq![text::trimmed(t.skip(2))]
            } else {
                section_commands(seq![line]) == seq![t]
            }
        }),
{
    let t = text::trimmed(line);
    items_and_fences_by_their_characters(t);
    assert(seq![line].drop_last() =~= Seq::<Seq<char>>::empty());
    reveal_with_fuel(section_commands, 2);
    reveal_with_fuel(fence_open, 2);
    if t.len() >= 2 && t[1] == ' ' {
        text::trimming_twice_is_trimming_once(line);
        assert(t.len() > 2);
        let item = t.skip(2);
        assert(item.last() == t.last());
        lemma_trimmed_keeps_its_last(item);
    }
    assert(section_commands(seq![line]) =~= match line_command(line, false) {
        Some(command) => seq![command],
        None => Seq::empty(),
    });
}

/// A text whose last character is no white space is not trimmed away.
proof fn lemma_trimmed_keeps_its_last(s: Seq<char>)
    requires
        s.len() > 0,
        !text::is_white_space(s.last()),
    ensures
        text::trimmed(s).len() > 0,
    decreases s.len(),
{
    if text::is_white_space(s[0]) {
        lemma_trimmed_keeps_its_last(s.drop_first());
    }
}

/// Behind a line that begins with three backticks, a line gives itself without
/// the white space around it, list marker included. It gives nothing if it is
/// blank or begins with three backticks.
pub proof fn a_fenced_line_gives_itself(fence: Seq<char>, line: Seq<char>)
    requires
        ({
            let f = text::trimmed(fence);
            f.len() >= 3 && f[0] == '`' && f[1] == '`' && f[2] == '`'
        }),
    ensures
        ({
            let t = text::trimmed(line);
            if t.len() == 0 || (t.len() >= 3 && t[0] == '`' && t[1] == '`' && t[2] == '`') {
                section_commands(seq![fence, line]).len() == 0
            } else {
                section_commands(seq![fence, line]) == seq![t]
            }
        }),
{
    items_and_fences_by_their_characters(text::trimmed(fence));
    items_and_fences_by_their_characters(text::trimmed(line));
    assert(seq![fence, line].drop_last() =~= seq![fence]);
    assert(seq![fence].drop_last() =~= Seq::<Seq<char>>::empty());
    reveal_with_fuel(section_commands, 3);
    reveal_with_fuel(fence_open, 3);
    assert(section_commands(seq![fence, line]) =~= match line_command(line, true) {
        Some(command) => seq![command],
        None => Seq::empty(),
    });
}

/// A section opens and closes its fences one after the other: one is open behind
/// two parts if it is open behind just one of them. A line alone opens one if it
/// begins with three backticks.
pub proof fn fences_open_and_close_in_turn(a: Seq<Seq<char>>, b: Seq<Seq<char>>)
    ensures
        fence_open(a + b) == (fence_open(a) != fence_open(b)),
        a.len() == 0 ==> !fence_open(a),
        a.len() == 1 ==> fence_open(a) == {
            let t = text::trimmed(a[0]);
            t.len() >= 3 && t[0] == '`' && t[1] == '`' && t[2] == '`'
        },
    decreases b.len(),
{
    if a.len() == 1 {
        items_and_fences_by_their_characters(text::trimmed(a[0]));
        reveal_with_fuel(fence_open, 2);
    }
    if b.len() == 0 {
        assert(a + b =~= a);
    } else {
        assert((a + b).drop_last() =~= a + b.drop_last());
        fences_open_and_close_in_turn(a, b.drop_last());
    }
}

/// The commands of two parts of a section are those of the first and then those
/// of the second. If a fence is open behind the first, the second is read as if
/// it stood behind that fence.
pub proof fn parts_of_a_section_give_their_commands_in_order(
    a: Seq<Seq<char>>,
    b: Seq<Seq<char>>,
    fence: Seq<char>,
)
    requires
        fence_open(seq![fence]),
    ensures
        !fence_open(a) ==> section_commands(a + b) == section_commands(a) + section_commands(b),
        fence_open(a) ==> section_commands(a + b) == section_commands(a) + section_commands(
            seq![fence] + b,
        ),
    decreases b.len(),
{
    if b.len() == 0 {
        assert(a + b =~= a);
        assert(seq![fence] + b =~= seq![fence]);
        fences_open_and_close_in_turn(seq![fence], b);
        items_and_fences_by_their_characters(text::trimmed(fence));
        a_line_gives_its_command(fence);
        assert(section_commands(a) + section_commands(b) =~= section_commands(a));
        assert(section_commands(a) + section_commands(seq![fence]) =~= section_commands(a));
    } else {
        let front = b.drop_last();
        parts_of_a_section_give_their_commands_in_order(a, front, fence);
        fences_open_and_close_in_turn(a, front);
        fences_open_and_close_in_turn(seq![fence], front);
        assert((a + b).drop_last() =~= a + front);
        assert((seq![fence] + b).drop_last() =~= seq![fence] + front);
        assert((seq![fence] + b).last() == b.last());
        if fence_open(a) {
            assert(section_commands(a + b) =~= section_commands(a) + section_commands(
                seq![fence] + b,
            ));
        } else {
            assert(section_commands(a + b) =~= section_commands(a) + section_commands(b));
        }
    }
}

/// The first text with commands is shown without them and without its marks, its
/// commands are to be run, and no attempt was made yet. Every other item stays
/// as it is. If no text has commands, all items stay and nothing is to be run.
pub proof fn only_the_first_text_with_commands_changes(
    before: Seq<UserInput>,
    after: Seq<UserInput>,
    state: Option<ControllerValidationState>,
    k: int,
)
    requires
        are_transformed_items(before, after, state),
        0 <= k <= before.len(),
        forall|i: int|
            0 <= i < k ==> !((#[trigger] before[i]) is Text && text_commands(before[i]->text@).len()
                > 0),
        k < before.len() ==> before[k] is Text && text_commands(before[k]->text@).len() > 0,
    ensures
        after.len() == before.len(),
        forall|i: int| 0 <= i < before.len() && i != k ==> #[trigger] after[i] == before[i],
        k == before.len() ==> after == before && state is None,
        k < before.len() ==> {
            &&& after[k] is Text
            &&& after[k]->text@ == visible_text(before[k]->text@)
            &&& after[k]->text_elements@.len() == 0
            &&& state is Some
            &&& state->0.attempt == 0
            &&& text::string_views(state->0.commands@) == text_commands(before[k]->text@)
        },
{
    lemma_first_pending_item_is(before, k);
}

/// `first_pending_item` is the first match.
proof fn lemma_first_pending_item_is(items: Seq<UserInput>, k: int)
    requires
        0 <= k <= items.len(),
        forall|i: int| 0 <= i < k ==> !is_pending_item(#[trigger] items[i]),
        k < items.len() ==> is_pending_item(items[k]),
    ensures
        first_pending_item(items) == (if k < items.len() {
            Some(k)
        } else {
            None::<int>
        }),
    decreases items.len(),
{
    if items.len() > 0 {
        let front = items.drop_last();
        if k < items.len() {
            lemma_first_pending_item_is(front, k);
        } else {
            lemma_first_pending_item_is(front, k - 1);
            assert(items[k - 1] == items.last());
        }
    }
}

/// The first command that reads as the failed one goes to the front, and the
/// others keep their order. `k` is its index, or the number of commands if none
/// reads so.
pub proof fn the_failed_command_passes_those_before_it(
    commands: Seq<String>,
    failed: Seq<char>,
    k: int,
)
    requires
        0 <= k <= commands.len(),
        forall|i: int| 0 <= i < k ==> (#[trigger] commands[i])@ != failed,
        k < commands.len() ==> commands[k]@ == failed,
    ensures
        command_first(commands, failed) == (if k < commands.len() {
            seq![commands[k]] + commands.take(k) + commands.skip(k + 1)
        } else {
            commands
        }),
{
    let views = text::string_views(commands);
    assert forall|i: int| 0 <= i < k implies #[trigger] views[i] != failed by {
        assert(views[i] == commands[i]@);
    }
    lemma_first_command_is(views, 0, failed, k);
    if k < commands.len() {
        assert(moved_to_front(commands, k) =~= seq![commands[k]] + commands.take(k)
            + commands.skip(k + 1));
    }
}

/// A summary names the command and its exit code, and then shows the output.
/// Output of at most `max_lines` lines and 8192 bytes is shown whole. Any other
/// is marked as cut: of its last `max_lines` lines, or of all of it if it has no
/// more, the longest end is shown that takes at most 8192 bytes.
pub proof fn a_summary_shows_the_end_of_the_output(
    command: Seq<char>,
    exit_code: int,
    output: Seq<char>,
    max_lines: nat,
)
    ensures
        ({
            let head = "Validation failed for command: `"@ + command + "`\nExit code: "@
                + text::decimal(exit_code) + "\nOutput:\n"@;
            let summary = failure_summary(command, exit_code, output, max_lines);
            let lines = text::text_lines(output);
            let kept = if lines.len() > max_lines {
                text::join_lines(lines.skip(lines.len() - max_lines))
            } else {
                output
            };
            let shown = summary.skip(head.len() as int);
            let end = shown.skip(4);
            &&& head.is_prefix_of(summary)
            &&& lines.len() <= max_lines && text::utf8_len(output) <= 8192 ==> shown == output
            &&& lines.len() > max_lines || text::utf8_len(output) > 8192 ==> {
                &&& shown.len() >= 4
                &&& shown.take(4) == seq!['.', '.', '.', '\n']
                &&& text::utf8_len(end) <= 8192
                &&& end.len() <= kept.len()
                &&& end == kept.skip(kept.len() - end.len())
                &&& end.len() < kept.len() ==> text::utf8_len(
                    kept.skip(kept.len() - end.len() - 1),
                ) > 8192
            }
            &&& text::utf8_len(summary) <= text::utf8_len(head) + 4 + 8192
        }),
{
    let head = "Validation failed for command: `"@ + command + "`\nExit code: "@ + text::decimal(
        exit_code,
    ) + "\nOutput:\n"@;
    let summary = failure_summary(command, exit_code, output, max_lines);
    let kept = last_lines(output, max_lines);
    let tail = text::utf8_tail(kept, 8192);
    let shown = shown_output(output, max_lines);
    reveal_strlit("...\n");
    text::utf8_tail_is_the_longest_end(kept, 8192);
    assert(summary =~= head + shown);
    assert(summary.skip(head.len() as int) =~= shown);
    assert(head =~= summary.subrange(0, head.len() as int));
    text::utf8_lengths_add_up(head, shown);
    if is_cut(output, max_lines) {
        assert("...\n"@ =~= seq!['.', '.', '.', '\n']);
        assert(shown.take(4) =~= seq!['.', '.', '.', '\n']);
        assert(shown.skip(4) =~= tail);
        text::utf8_lengths_add_up("...\n"@, tail);
        text::ascii_takes_one_byte_each("...\n"@);
        assert(tail =~= kept.skip(kept.len() - tail.len()));
    } else {
        assert(tail == kept);
    }
}

/// The lines that are kept of an output are its last ones, as many as allowed,
/// and they are shown as lines.
pub proof fn the_last_lines_are_kept(output: Seq<char>, max_lines: nat)
    ensures
        text::text_lines(output).len() <= max_lines ==> last_lines(output, max_lines) == output,
        0 < max_lines < text::text_lines(output).len() ==> text::split_lines(
            last_lines(output, max_lines),
        ) == text::text_lines(output).skip(text::text_lines(output).len() - max_lines),
        max_lines == 0 ==> last_lines(output, max_lines).len() == 0,
{
    let lines = text::text_lines(output);
    text::text_lines_hold_no_newline(output);
    if lines.len() > max_lines {
        let kept = lines.skip(lines.len() - max_lines);
        if max_lines > 0 {
            assert forall|i: int| 0 <= i < kept.len() implies !(#[trigger] kept[i]).contains('\n') by {
                assert(kept[i] == lines[lines.len() - max_lines + i]);
            }
            text::split_of_join_is_the_lines(kept);
        }
    } else if max_lines == 0 {
        text::a_text_without_lines_is_empty(output);
    }
}

/// A repair prompt is the summary of the failure and then one and the same
/// instruction.
pub proof fn a_repair_prompt_begins_with_the_failure(summary: Seq<char>)
    ensures
        summary.is_prefix_of(repair_prompt(summary)),
        repair_prompt(summary).skip(summary.len() as int)
            == "\n\nFix this validation failure only. Do not output a final summary. Validation remains controller-managed."@,
{
    let prompt = repair_prompt(summary);
    assert(summary =~= prompt.subrange(0, summary.len() as int));
    assert(prompt.skip(summary.len() as int)
        =~= "\n\nFix this validation failure only. Do not output a final summary. Validation remains controller-managed."@);
}

/// A command passed if it exited with zero, and failed with any other code. Both
/// messages name the command and the code.
pub proof fn only_a_zero_exit_code_passes(command: Seq<char>, exit_code: int)
    ensures
        exit_code == 0 ==> completion_message(command, exit_code) == "Build/test command passed: "@
            + command + " (exit code 0)"@,
        exit_code != 0 ==> completion_message(command, exit_code) == "Build/test command failed: "@
            + command + " (exit code "@ + text::decimal(exit_code) + ")"@,
{
    if exit_code == 0 {
        text::a_decimal_says_its_number(0);
        reveal_strlit(" (exit code ");
        reveal_strlit(")");
        reveal_strlit(" (exit code 0)");
        assert(" (exit code "@ + text::decimal(0) + ")"@ =~= " (exit code 0)"@);
        assert(completion_message(command, exit_code) =~= "Build/test command passed: "@ + command
            + (" (exit code "@ + text::decimal(0) + ")"@));
    }
}

/// The message about the start of a command ends with the whole command.
pub proof fn a_start_message_names_the_command(command: Seq<char>)
    ensures
        start_message(command).take(start_message(command).len() - command.len())
            == "Running build/test command: "@,
        start_message(command).skip(start_message(command).len() - command.len()) == command,
{
    let message = start_message(command);
    assert(message.take(message.len() - command.len()) =~= "Running build/test command: "@);
    assert(message.skip(message.len() - command.len()) =~= command);
}

/// The index of a line is its number.
pub proof fn a_line_index_is_its_number(line: Option<usize>)
    ensures
        line_index(line) is Some <==> line is Some,
        line is Some ==> line_index(line)->0 == line->0,
{
}

} // verus!
