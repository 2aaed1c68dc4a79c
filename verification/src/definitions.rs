//! How the tools are described to a model.
use crate::json::{self, Json, JsonView};
use crate::tools;
use vstd::prelude::*;

verus! {

/// The schema of an object with some properties and no others.
pub open spec fn parameters(properties: JsonView) -> JsonView {
    JsonView::Object(
        map![
            "type"@ => JsonView::Text("object"@),
            "properties"@ => properties,
            "additionalProperties"@ => JsonView::Bool(false),
        ],
    )
}

/// The one property of the tools that take a path.
pub open spec fn path_property() -> JsonView {
    JsonView::Object(
        map!["path"@ => JsonView::Object(map!["type"@ => JsonView::Text("string"@)])],
    )
}

/// The description of a tool.
pub open spec fn definition(
    name: Seq<char>,
    description: Seq<char>,
    parameters: JsonView,
) -> JsonView {
    JsonView::Object(
        map![
            "type"@ => JsonView::Text("function"@),
            "function"@ => JsonView::Object(
                map![
                    "name"@ => JsonView::Text(name),
                    "description"@ => JsonView::Text(description),
                    "parameters"@ => parameters,
                ],
            ),
        ],
    )
}

/// The descriptions of the tools.
pub open spec fn definitions() -> Seq<JsonView> {
    seq![
        definition(
            "pwd"@,
            "Return the current workspace path."@,
            parameters(json::empty_object()),
        ),
        definition(
            "list"@,
            "List entries in a workspace-relative directory."@,
            parameters(path_property()),
        ),
        definition(
            "read"@,
            "Read a workspace-relative text file."@,
            json::with_field(
                parameters(path_property()),
                "required"@,
                JsonView::Array(seq![JsonView::Text("path"@)]),
            ),
        ),
        definition(
            "git_diff"@,
            "Return the current git diff without executing a shell."@,
            parameters(json::empty_object()),
        ),
    ]
}

fn parameter_schema(properties: Json) -> (schema: Json)
    ensures
        schema@ == parameters(properties@),
{
    Json::object().with_field("type", Json::text("object")).with_field(
        "properties",
        properties,
    ).with_field("additionalProperties", Json::Bool(false))
}

fn path_schema() -> (schema: Json)
    ensures
        schema@ == path_property(),
{
    let path = Json::object().with_field("type", Json::text("string"));
    Json::object().with_field("path", path)
}

fn describe(name: &str, description: &str, schema: Json) -> (tool: Json)
    ensures
        tool@ == definition(name@, description@, schema@),
{
    let function = Json::object().with_field("name", Json::text(name)).with_field(
        "description",
        Json::text(description),
    ).with_field("parameters", schema);
    Json::object().with_field("type", Json::text("function")).with_field("function", function)
}

/// The descriptions of the tools, as a chat request carries them.
pub fn safe_tool_definitions() -> (list: Json)
    ensures
        list@ == JsonView::Array(definitions()),
{
    let pwd = describe(
        "pwd",
        "Return the current workspace path.",
        parameter_schema(Json::object()),
    );
    let list = describe(
        "list",
        "List entries in a workspace-relative directory.",
        parameter_schema(path_schema()),
    );
    let required: Vec<Json> = vec![Json::text("path")];
    assert(json::item_views(required@) =~= seq![JsonView::Text("path"@)]);
    let read = describe(
        "read",
        "Read a workspace-relative text file.",
        parameter_schema(path_schema()).with_field("required", Json::Array(required)),
    );
    let git_diff = describe(
        "git_diff",
        "Return the current git diff without executing a shell.",
        parameter_schema(Json::object()),
    );
    let items: Vec<Json> = vec![pwd, list, read, git_diff];
    assert(json::item_views(items@) =~= definitions());
    Json::Array(items)
}

/// The name that the description of a tool gives.
pub open spec fn defined_name(tool: JsonView) -> Option<Seq<char>> {
    match json::field(tool, "function"@) {
        Some(function) => json::text_of(json::field(function, "name"@)),
        None => None,
    }
}

/// The tools described to a model are the tools that may be run, in the same order.
pub proof fn definitions_are_the_allowlist()
    ensures
        definitions().len() == tools::tool_names().len(),
        forall|i: int|
            0 <= i < definitions().len() ==> defined_name(#[trigger] definitions()[i]) == Some(
                tools::tool_names()[i],
            ),
        forall|name: Seq<char>| #[trigger]
            tools::allowed(name) <==> tools::tool_names().contains(name),
{
    reveal_strlit("type");
    reveal_strlit("function");
    reveal_strlit("name");
    reveal_strlit("description");
    reveal_strlit("parameters");
    assert("type"@.len() == 4);
    assert("function"@.len() == 8);
    assert("name"@.len() == 4);
    assert("description"@.len() == 11);
    assert("parameters"@.len() == 10);
    let names = tools::tool_names();
    assert forall|name: Seq<char>| #[trigger] tools::allowed(name) <==> names.contains(name) by {
        assert(names[0] == "pwd"@);
        assert(names[1] == "list"@);
        assert(names[2] == "read"@);
        assert(names[3] == "git_diff"@);
    }
}

} // verus!
