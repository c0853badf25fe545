//! Tool definitions, tool calls and the prompt-guided tool protocol.
use crate::text;
use vstd::prelude::*;

verus! {

/// A JSON value of `serde_json`, carried through unread.
#[verifier::external_type_specification]
#[verifier::external_body]
pub struct ExValue(serde_json::Value);

/// The error of `serde_json`, carried through unread.
#[verifier::external_type_specification]
#[verifier::external_body]
pub struct ExJsonError(serde_json::Error);

/// What a tool is called, what it does and which arguments it takes.
#[derive(Debug)]
pub struct ToolSpec {
    /// Name by which the tool is called.
    pub name: String,
    /// What the tool does.
    pub description: String,
    /// JSON Schema of the arguments.
    pub parameters: serde_json::Value,
}

/// A tool call requested by the LLM.
#[derive(Debug, Clone)]
pub struct ToolCall {
    /// Identifies the call within the conversation.
    pub id: String,
    /// Name of the tool.
    pub name: String,
    /// Arguments as JSON text.
    pub arguments: String,
    /// Provider-specific opaque extension fields that must round-trip unchanged
    /// on follow-up turns.
    pub extra_content: Option<serde_json::Value>,
}

/// A tool result to feed back to the LLM.
#[derive(Debug, Clone)]
pub struct ToolResultMessage {
    /// The call that this is the result of.
    pub tool_call_id: String,
    /// What the tool returned.
    pub content: String,
    /// Name of the tool, or empty.
    pub tool_name: String,
}

/// Provider-specific tool payload formats.
#[derive(Debug, Clone)]
pub enum ToolsPayload {
    /// Gemini API format (functionDeclarations).
    Gemini {
        /// One declaration per tool.
        function_declarations: Vec<serde_json::Value>,
    },
    /// Anthropic Messages API format (tools with input_schema).
    Anthropic {
        /// One definition per tool.
        tools: Vec<serde_json::Value>,
    },
    /// OpenAI Chat Completions API format (tools with function).
    OpenAI {
        /// One definition per tool.
        tools: Vec<serde_json::Value>,
    },
    /// Prompt-guided fallback (tools injected as text in system prompt).
    PromptGuided {
        /// Text for the system prompt.
        instructions: String,
    },
}

// ---------------------------------------------------------------------------
// The text of the protocol
// ---------------------------------------------------------------------------
/// The JSON text of a value, or `None` where the value cannot be written.
pub uninterp spec fn json_text(value: serde_json::Value) -> Option<Seq<char>>;

/// `serde_json::to_string` on a `serde_json::Value`: whether it succeeds, and the
/// text that it then returns, depend on the value alone. What the text is, and
/// that a value can always be written, is not stated.
#[verifier::external_body]
fn to_json(value: &serde_json::Value) -> (written: Result<String, serde_json::Error>)
    ensures
        match written {
            Ok(json) => json_text(*value) == Some(json@),
            Err(_) => json_text(*value) is None,
        },
{
    serde_json::to_string(value)
}

/// What the protocol shows of a tool.
#[verifier::ext_equal]
pub struct ToolEntry {
    /// Name by which the tool is called.
    pub name: Seq<char>,
    /// What the tool does.
    pub description: Seq<char>,
    /// JSON text of the schema of the arguments.
    pub parameters: Seq<char>,
}

impl ToolSpec {
    /// What the protocol shows of this tool, given the text of its parameters.
    pub open spec fn entry(self, parameters: Seq<char>) -> ToolEntry {
        ToolEntry { name: self.name@, description: self.description@, parameters }
    }

    /// What the protocol shows of this tool.
    pub open spec fn shown(self) -> ToolEntry {
        self.entry(shown_parameters(json_text(self.parameters)))
    }
}

/// The text shown for parameters, given what writing them as JSON returned.
pub open spec fn shown_parameters(written: Option<Seq<char>>) -> Seq<char> {
    match written {
        Some(json) => json,
        None => "{}"@,
    }
}

/// How to call a tool and how results come back.
pub open spec fn protocol_header() -> Seq<char> {
    "## Tool Use Protocol\n\n"@
        + "To use a tool, wrap a JSON object in <tool_call></tool_call> tags:\n\n"@
        + "<tool_call>\n"@ + "{\"name\": \"tool_name\", \"arguments\": {\"param\": \"value\"}}"@
        + "\n</tool_call>\n\n"@ + "You may use multiple tool calls in a single response. "@
        + "After tool execution, results appear in <tool_result> tags. "@
        + "Continue reasoning with the results until you can give a final answer.\n\n"@
        + "### Available Tools\n\n"@
}

/// The section on one tool.
pub open spec fn tool_section(tool: ToolEntry) -> Seq<char> {
    "**"@ + tool.name + "**: "@ + tool.description + "\n"@ + "Parameters: `"@ + tool.parameters
        + "`\n"@ + "\n"@
}

/// The sections on `tools`, in order.
pub open spec fn tool_sections(tools: Seq<ToolEntry>) -> Seq<char>
    decreases tools.len(),
{
    if tools.len() == 0 {
        Seq::empty()
    } else {
        tool_sections(tools.drop_last()) + tool_section(tools.last())
    }
}

/// The whole text of the protocol for `tools`.
pub open spec fn protocol(tools: Seq<ToolEntry>) -> Seq<char> {
    protocol_header() + tool_sections(tools)
}

/// What the protocol shows of `tools`.
pub open spec fn shown_tools(tools: Seq<ToolSpec>) -> Seq<ToolEntry> {
    tools.map_values(|tool: ToolSpec| tool.shown())
}

/// What the protocol shows of `tools`, given the texts of their parameters.
pub open spec fn entries(tools: Seq<ToolSpec>, parameters: Seq<String>) -> Seq<ToolEntry> {
    Seq::new(tools.len(), |i: int| tools[i].entry(parameters[i]@))
}

/// The text shown for parameters: their JSON text, or `{}` where they could not
/// be written.
pub fn parameters_or_empty_object(written: Result<String, serde_json::Error>) -> (shown: String)
    ensures
        shown@ == shown_parameters(
            match written {
                Ok(json) => Some(json@),
                Err(_) => None,
            },
        ),
        written matches Ok(json) ==> shown@ == json@,
        written is Err ==> shown@ == seq!['{', '}'],
{
    proof {
        reveal_strlit("{}");
        assert("{}"@ =~= seq!['{', '}']);
    }
    match written {
        Ok(json) => json,
        Err(_) => "{}".to_string(),
    }
}

/// The text of the protocol for `tools`, given the texts of their parameters.
pub fn protocol_text(tools: &[ToolSpec], parameters: &[String]) -> (instructions: String)
    requires
        parameters@.len() == tools@.len(),
    ensures
        instructions@ == protocol(entries(tools@, parameters@)),
{
    let ghost shown = entries(tools@, parameters@);
    let mut instructions = String::new();
    instructions.append("## Tool Use Protocol\n\n");
    instructions.append("To use a tool, wrap a JSON object in <tool_call></tool_call> tags:\n\n");
    instructions.append("<tool_call>\n");
    instructions.append("{\"name\": \"tool_name\", \"arguments\": {\"param\": \"value\"}}");
    instructions.append("\n</tool_call>\n\n");
    instructions.append("You may use multiple tool calls in a single response. ");
    instructions.append("After tool execution, results appear in <tool_result> tags. ");
    instructions.append(
        "Continue reasoning with the results until you can give a final answer.\n\n",
    );
    instructions.append("### Available Tools\n\n");
    assert(instructions@ =~= protocol_header() + tool_sections(shown.take(0)));
    let mut i: usize = 0;
    while i < tools.len()
        invariant
            i <= tools@.len(),
            parameters@.len() == tools@.len(),
            shown == entries(tools@, parameters@),
            instructions@ == protocol_header() + tool_sections(shown.take(i as int)),
        decreases tools@.len() - i,
    {
        let ghost before = instructions@;
        let tool = &tools[i];
        instructions.append("**");
        instructions.append(tool.name.as_str());
        instructions.append("**: ");
        instructions.append(tool.description.as_str());
        instructions.append("\n");
        instructions.append("Parameters: `");
        instructions.append(parameters[i].as_str());
        instructions.append("`\n");
        instructions.append("\n");
        proof {
            assert(instructions@ =~= before + tool_section(shown[i as int]));
            assert(shown.take(i + 1).drop_last() =~= shown.take(i as int));
            assert(instructions@ =~= protocol_header() + tool_sections(shown.take(i + 1)));
        }
        i = i + 1;
    }
    assert(shown.take(i as int) =~= shown);
    instructions
}

/// Build tool instructions text for prompt-guided tool calling.
pub fn build_tool_instructions_text(tools: &[ToolSpec]) -> (instructions: String)
    ensures
        instructions@ == protocol(shown_tools(tools@)),
{
    let mut parameters: Vec<String> = Vec::new();
    let mut i: usize = 0;
    while i < tools.len()
        invariant
            i <= tools@.len(),
            parameters@.len() == i,
            forall|j: int|
                0 <= j < i ==> #[trigger] parameters@[j]@ == shown_parameters(
                    json_text(tools@[j].parameters),
                ),
        decreases tools@.len() - i,
    {
        parameters.push(parameters_or_empty_object(to_json(&tools[i].parameters)));
        i = i + 1;
    }
    assert(entries(tools@, parameters@) =~= shown_tools(tools@));
    protocol_text(tools, parameters.as_slice())
}

// ---------------------------------------------------------------------------
// Laws
// ---------------------------------------------------------------------------
/// The sections on two lists of tools, one after the other, are the sections on
/// the first followed by those on the second.
pub proof fn law_tool_sections_add(first: Seq<ToolEntry>, second: Seq<ToolEntry>)
    ensures
        tool_sections(first + second) == tool_sections(first) + tool_sections(second),
        protocol(first + second) == protocol(first) + tool_sections(second),
    decreases second.len(),
{
    if second.len() == 0 {
        assert(first + second =~= first);
        assert(tool_sections(first) + tool_sections(second) =~= tool_sections(first));
    } else {
        law_tool_sections_add(first, second.drop_last());
        assert((first + second).drop_last() =~= first + second.drop_last());
        assert(tool_sections(first + second) =~= tool_sections(first) + tool_sections(second));
    }
    assert(protocol(first + second) =~= protocol(first) + tool_sections(second));
}

/// The protocol begins with its header and holds the section of every tool.
pub proof fn law_protocol_shows_every_tool(tools: Seq<ToolEntry>, i: int)
    requires
        0 <= i < tools.len(),
    ensures
        text::begins_with(protocol(tools), protocol_header()),
        text::occurs_in(protocol(tools), tool_section(tools[i])),
{
    let before = tools.take(i);
    let after = tools.skip(i + 1);
    let section = tool_section(tools[i]);
    assert(tools =~= before + seq![tools[i]] + after);
    law_tool_sections_add(before + seq![tools[i]], after);
    law_tool_sections_add(before, seq![tools[i]]);
    assert(seq![tools[i]].drop_last() =~= Seq::empty());
    reveal_with_fuel(tool_sections, 2);
    assert(tool_sections(seq![tools[i]]) =~= section);
    let whole = protocol(tools);
    let at = (protocol_header() + tool_sections(before)).len() as int;
    assert(whole =~= protocol_header() + tool_sections(before) + section + tool_sections(after));
    assert(whole.subrange(at, at + section.len()) =~= section);
    assert(text::occurs_at(whole, section, at));
    assert(whole.subrange(0, protocol_header().len() as int) =~= protocol_header());
}

/// A tool's section is its whole name, its whole description and the whole text of
/// its parameters, each at its place and nothing else beside the fixed words.
pub proof fn law_tool_section_shows_the_whole_tool(tool: ToolEntry)
    ensures
        ({
            let section = tool_section(tool);
            let name_end = 2 + tool.name.len() as int;
            let description_end = name_end + 4 + tool.description.len() as int;
            let parameters_end = description_end + 14 + tool.parameters.len() as int;
            &&& section.len() == parameters_end + 3
            &&& section.subrange(0, 2) == seq!['*', '*']
            &&& section.subrange(2, name_end) == tool.name
            &&& section.subrange(name_end, name_end + 4) == seq!['*', '*', ':', ' ']
            &&& section.subrange(name_end + 4, description_end) == tool.description
            &&& section.subrange(description_end, description_end + 14)
                == "\nParameters: `"@
            &&& section.subrange(description_end + 14, parameters_end) == tool.parameters
            &&& section.subrange(parameters_end, parameters_end + 3) == seq!['`', '\n', '\n']
        }),
{
    reveal_strlit("**");
    reveal_strlit("**: ");
    reveal_strlit("\n");
    reveal_strlit("Parameters: `");
    reveal_strlit("\nParameters: `");
    reveal_strlit("`\n");
    let section = tool_section(tool);
    let name_end = 2 + tool.name.len() as int;
    let description_end = name_end + 4 + tool.description.len() as int;
    let parameters_end = description_end + 14 + tool.parameters.len() as int;
    assert(section.subrange(0, 2) =~= seq!['*', '*']);
    assert(section.subrange(2, name_end) =~= tool.name);
    assert(section.subrange(name_end, name_end + 4) =~= seq!['*', '*', ':', ' ']);
    assert(section.subrange(name_end + 4, description_end) =~= tool.description);
    assert(section.subrange(description_end, description_end + 14) =~= "\nParameters: `"@);
    assert(section.subrange(description_end + 14, parameters_end) =~= tool.parameters);
    assert(section.subrange(parameters_end, parameters_end + 3) =~= seq!['`', '\n', '\n']);
}

/// Tools of the same name and description with different parameters have different
/// sections.
pub proof fn law_different_parameters_show(a: ToolEntry, b: ToolEntry)
    requires
        a.name == b.name,
        a.description == b.description,
        tool_section(a) == tool_section(b),
    ensures
        a.parameters == b.parameters,
{
    law_tool_section_shows_the_whole_tool(a);
    law_tool_section_shows_the_whole_tool(b);
}

/// What is shown of a tool is its own name and description, and the JSON text of its
/// parameters wherever they can be written.
pub proof fn law_tools_are_shown_as_they_are(tools: Seq<ToolSpec>, i: int)
    requires
        0 <= i < tools.len(),
    ensures
        shown_tools(tools).len() == tools.len(),
        shown_tools(tools)[i].name == tools[i].name@,
        shown_tools(tools)[i].description == tools[i].description@,
        json_text(tools[i].parameters) matches Some(json) ==> shown_tools(tools)[i].parameters
            == json,
        json_text(tools[i].parameters) is None ==> shown_tools(tools)[i].parameters == seq![
            '{',
            '}',
        ],
{
    reveal_strlit("{}");
    assert("{}"@ =~= seq!['{', '}']);
}

/// What is shown of a tool, given the text of its parameters, is its own name and
/// description and that text.
pub proof fn law_given_parameters_are_shown(
    tools: Seq<ToolSpec>,
    parameters: Seq<String>,
    i: int,
)
    requires
        parameters.len() == tools.len(),
        0 <= i < tools.len(),
    ensures
        entries(tools, parameters).len() == tools.len(),
        entries(tools, parameters)[i].name == tools[i].name@,
        entries(tools, parameters)[i].description == tools[i].description@,
        entries(tools, parameters)[i].parameters == parameters[i]@,
{
}

/// The words of the header, as they are read.
pub proof fn law_protocol_header_words()
    ensures
        protocol_header()
            == "## Tool Use Protocol\n\nTo use a tool, wrap a JSON object in <tool_call></tool_call> tags:\n\n<tool_call>\n{\"name\": \"tool_name\", \"arguments\": {\"param\": \"value\"}}\n</tool_call>\n\nYou may use multiple tool calls in a single response. After tool execution, results appear in <tool_result> tags. Continue reasoning with the results until you can give a final answer.\n\n### Available Tools\n\n"@,
{
    reveal_strlit("## Tool Use Protocol\n\n");
    reveal_strlit("To use a tool, wrap a JSON object in <tool_call></tool_call> tags:\n\n");
    reveal_strlit("<tool_call>\n");
    reveal_strlit("{\"name\": \"tool_name\", \"arguments\": {\"param\": \"value\"}}");
    reveal_strlit("\n</tool_call>\n\n");
    reveal_strlit("You may use multiple tool calls in a single response. ");
    reveal_strlit("After tool execution, results appear in <tool_result> tags. ");
    reveal_strlit("Continue reasoning with the results until you can give a final answer.\n\n");
    reveal_strlit("### Available Tools\n\n");
    reveal_strlit(
        "## Tool Use Protocol\n\nTo use a tool, wrap a JSON object in <tool_call></tool_call> tags:\n\n<tool_call>\n{\"name\": \"tool_name\", \"arguments\": {\"param\": \"value\"}}\n</tool_call>\n\nYou may use multiple tool calls in a single response. After tool execution, results appear in <tool_result> tags. Continue reasoning with the results until you can give a final answer.\n\n### Available Tools\n\n",
    );
    assert(protocol_header()
        =~= "## Tool Use Protocol\n\nTo use a tool, wrap a JSON object in <tool_call></tool_call> tags:\n\n<tool_call>\n{\"name\": \"tool_name\", \"arguments\": {\"param\": \"value\"}}\n</tool_call>\n\nYou may use multiple tool calls in a single response. After tool execution, results appear in <tool_result> tags. Continue reasoning with the results until you can give a final answer.\n\n### Available Tools\n\n"@);
}

/// The protocol for one tool more is the protocol for the others, followed by that
/// tool's section and nothing else. For no tool it is the header.
pub proof fn law_protocol_grows_by_one_section(tools: Seq<ToolEntry>, tool: ToolEntry)
    ensures
        protocol(Seq::empty()) == protocol_header(),
        protocol(tools.push(tool)) == protocol(tools) + tool_section(tool),
{
    assert(protocol(Seq::empty()) =~= protocol_header());
    assert(tools.push(tool).drop_last() =~= tools);
    assert(protocol(tools.push(tool)) =~= protocol(tools) + tool_section(tool));
}

} // verus!
