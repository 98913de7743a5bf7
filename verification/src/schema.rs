//! JSON Schema definitions for the versioned Dry IR dialects.
use crate::text::str_eq;
use vstd::prelude::*;

verus! {

/// The schema a dialect identifier names, if any: each dialect answers to its full id, its short id
/// and its bare name.
pub open spec fn spec_dialect_schema(d: Seq<char>) -> Option<&'static str> {
    if d == "dry.intent/1"@ || d == "intent/1"@ || d == "intent"@ {
        Some(INTENT_V1_SCHEMA)
    } else if d == "dry.path/1"@ || d == "path/1"@ || d == "path"@ {
        Some(PATH_V1_SCHEMA)
    } else if d == "dry.motion/1"@ || d == "motion/1"@ || d == "motion"@ {
        Some(MOTION_V1_SCHEMA)
    } else if d == "dry.tool/1"@ || d == "tool/1"@ || d == "tool"@ {
        Some(TOOL_V1_SCHEMA)
    } else {
        None
    }
}

/// Retrieve the JSON Schema for a requested dialect identifier.
pub fn get_dialect_schema(dialect: &str) -> (r: Option<&'static str>)
    ensures
        r == spec_dialect_schema(dialect@),
{
    if str_eq(dialect, "dry.intent/1") || str_eq(dialect, "intent/1") || str_eq(dialect, "intent") {
        Some(INTENT_V1_SCHEMA)
    } else if str_eq(dialect, "dry.path/1") || str_eq(dialect, "path/1") || str_eq(dialect, "path") {
        Some(PATH_V1_SCHEMA)
    } else if str_eq(dialect, "dry.motion/1") || str_eq(dialect, "motion/1") || str_eq(dialect, "motion") {
        Some(MOTION_V1_SCHEMA)
    } else if str_eq(dialect, "dry.tool/1") || str_eq(dialect, "tool/1") || str_eq(dialect, "tool") {
        Some(TOOL_V1_SCHEMA)
    } else {
        None
    }
}

/// The bare dialect names.
pub open spec fn is_dialect_name(n: Seq<char>) -> bool {
    n == "intent"@ || n == "path"@ || n == "motion"@ || n == "tool"@
}

/// The schema written for the dialect with bare name `n`.
pub open spec fn schema_for(n: Seq<char>) -> &'static str {
    if n == "intent"@ {
        INTENT_V1_SCHEMA
    } else if n == "path"@ {
        PATH_V1_SCHEMA
    } else if n == "motion"@ {
        MOTION_V1_SCHEMA
    } else {
        TOOL_V1_SCHEMA
    }
}

/// Law: every dialect's full id `dry.{name}/1`, its short id `{name}/1` and its bare name all give
/// the schema written for that dialect.
pub proof fn law_each_dialect_answers_to_all_its_names(n: Seq<char>)
    requires
        is_dialect_name(n),
    ensures
        spec_dialect_schema(n) == Some(schema_for(n)),
        spec_dialect_schema("dry."@ + n + "/1"@) == Some(schema_for(n)),
        spec_dialect_schema(n + "/1"@) == Some(schema_for(n)),
{
    reveal_strlit("dry.");
    reveal_strlit("/1");
    reveal_strlit("intent");
    reveal_strlit("path");
    reveal_strlit("motion");
    reveal_strlit("tool");
    reveal_strlit("dry.intent/1");
    reveal_strlit("dry.path/1");
    reveal_strlit("dry.motion/1");
    reveal_strlit("dry.tool/1");
    reveal_strlit("intent/1");
    reveal_strlit("path/1");
    reveal_strlit("motion/1");
    reveal_strlit("tool/1");
    // Identifiers of equal length differ in their first character, or, with the `dry.` prefix, in
    // the fifth.
    assert(("dry.intent/1"@)[4] != ("dry.motion/1"@)[4]);
    assert(("dry.path/1"@)[4] != ("dry.tool/1"@)[4]);
    assert(("intent/1"@)[0] != ("motion/1"@)[0]);
    assert(("intent"@)[0] != ("path/1"@)[0] && ("intent"@)[0] != ("motion"@)[0] && ("intent"@)[0] != ("tool/1"@)[0]);
    assert(("path/1"@)[0] != ("motion"@)[0] && ("path/1"@)[0] != ("tool/1"@)[0] && ("motion"@)[0] != ("tool/1"@)[0]);
    assert(("path"@)[0] != ("tool"@)[0]);
    if n == "intent"@ {
        assert("dry."@ + n + "/1"@ =~= "dry.intent/1"@);
        assert(n + "/1"@ =~= "intent/1"@);
    } else if n == "path"@ {
        assert("dry."@ + n + "/1"@ =~= "dry.path/1"@);
        assert(n + "/1"@ =~= "path/1"@);
    } else if n == "motion"@ {
        assert("dry."@ + n + "/1"@ =~= "dry.motion/1"@);
        assert(n + "/1"@ =~= "motion/1"@);
    } else {
        assert("dry."@ + n + "/1"@ =~= "dry.tool/1"@);
        assert(n + "/1"@ =~= "tool/1"@);
    }
}

pub const INTENT_V1_SCHEMA: &'static str = r#"{
  "$schema": "http://json-schema.org/draft-07/schema#",
  "title": "DryIntentV1",
  "description": "Dry IR L0 Intent Dialect (v1)",
  "type": "object",
  "required": ["dialect", "elements"],
  "properties": {
    "$schema": { "type": "string" },
    "dialect": { "type": "string", "enum": ["dry.intent/1"] },
    "metadata": { "type": "object" },
    "root_frame": { "type": "string" },
    "elements": { "type": "array" }
  }
}"#;

pub const PATH_V1_SCHEMA: &'static str = r#"{
  "$schema": "http://json-schema.org/draft-07/schema#",
  "title": "DryPathV1",
  "description": "Dry IR L1 Path Dialect (v1)",
  "type": "object",
  "required": ["dialect", "elements"],
  "properties": {
    "$schema": { "type": "string" },
    "dialect": { "type": "string", "enum": ["dry.path/1"] },
    "metadata": { "type": "object" },
    "root_frame": { "type": "string" },
    "elements": { "type": "array" }
  }
}"#;

pub const MOTION_V1_SCHEMA: &'static str = r#"{
  "$schema": "http://json-schema.org/draft-07/schema#",
  "title": "DryMotionV1",
  "description": "Dry IR L2 Motion Dialect (v1)",
  "type": "object",
  "required": ["dialect", "elements"],
  "properties": {
    "$schema": { "type": "string" },
    "dialect": { "type": "string", "enum": ["dry.motion/1"] },
    "metadata": { "type": "object" },
    "root_frame": { "type": "string" },
    "elements": { "type": "array" }
  }
}"#;

pub const TOOL_V1_SCHEMA: &'static str = r#"{
  "$schema": "http://json-schema.org/draft-07/schema#",
  "title": "DryToolV1",
  "description": "Dry Tool Registry Schema (v1)",
  "type": "object",
  "required": ["id", "number", "name", "kind", "diameter"],
  "properties": {
    "id": { "type": "string" },
    "number": { "type": "integer", "minimum": 1 },
    "name": { "type": "string" },
    "kind": { "type": "string" },
    "diameter": { "type": "number", "exclusiveMinimum": 0 },
    "flute_length": { "type": "number" },
    "flute_count": { "type": "integer" },
    "max_rpm": { "type": "number" },
    "offset_z": { "type": "number" }
  }
}"#;

} // verus!
