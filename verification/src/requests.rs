//! One builder per host command: each yields the method name and the
//! exact parameter envelope the original surface sends, so the caller
//! only writes the line on the wire. The builders are the computing
//! half of the command layer; dispatch and transport stay outside.

use vstd::prelude::*;

use crate::json::JVal;
use crate::json::Json;
use crate::json::jfields;

verus! {

/// An empty parameter object.
fn empty_params() -> (r: Json)
    ensures
        r@ == JVal::Obj(Seq::empty()),
{
    let fields: Vec<(String, Json)> = Vec::new();
    let ghost fv = fields@;
    let r = Json::Obj(fields);
    proof {
        assert(jfields(fv) =~= Seq::empty());
    }
    r
}

/// Appends a string-valued member.
fn push_str_field(fields: &mut Vec<(String, Json)>, key: &str, val: &str)
    ensures
        jfields(final(fields)@) == jfields(old(fields)@).push((key@, JVal::Str(val@))),
{
    fields.push((key.to_owned(), Json::Str(val.to_owned())));
    proof {
        let fv = fields@;
        assert(fv.drop_last() =~= old(fields)@);
        assert(fv.last().0@ == key@);
        assert(fv.last().1@ == JVal::Str(val@));
        assert(jfields(fv) == jfields(fv.drop_last()).push((fv.last().0@, fv.last().1@)));
    }
}

/// Appends a member with an arbitrary value.
fn push_json_field(fields: &mut Vec<(String, Json)>, key: &str, val: Json)
    ensures
        jfields(final(fields)@) == jfields(old(fields)@).push((key@, val@)),
{
    fields.push((key.to_owned(), val));
    proof {
        let fv = fields@;
        assert(fv.drop_last() =~= old(fields)@);
        assert(fv.last().0@ == key@);
        assert(jfields(fv) == jfields(fv.drop_last()).push((fv.last().0@, fv.last().1@)));
    }
}

/// Appends an integer-valued member.
fn push_int_field(fields: &mut Vec<(String, Json)>, key: &str, n: i64)
    ensures
        jfields(final(fields)@) == jfields(old(fields)@).push((key@, JVal::Int(n as int))),
{
    fields.push((key.to_owned(), Json::Int(n)));
    proof {
        let fv = fields@;
        assert(fv.drop_last() =~= old(fields)@);
        assert(fv.last().0@ == key@);
        assert(fv.last().1@ == JVal::Int(n as int));
        assert(jfields(fv) == jfields(fv.drop_last()).push((fv.last().0@, fv.last().1@)));
    }
}

/// Lists the stored profiles.
pub fn profiles_list() -> (r: (String, Json))
    ensures
        r.0@ == "profiles.list"@,
        r.1@ == JVal::Obj(Seq::empty()),
{
    (String::from_str("profiles.list"), empty_params())
}

/// Adds a profile; the payload passes through unchanged.
pub fn profiles_add(params: Json) -> (r: (String, Json))
    ensures
        r.0@ == "profiles.add"@,
        r.1@ == params@,
{
    (String::from_str("profiles.add"), params)
}

/// Removes the named profile.
pub fn profiles_remove(name: &str) -> (r: (String, Json))
    ensures
        r.0@ == "profiles.remove"@,
        r.1@ == JVal::Obj(seq![("name"@, JVal::Str(name@))]),
{
    let mut fields: Vec<(String, Json)> = Vec::new();
    push_str_field(&mut fields, "name", name);
    let ghost fv = fields@;
    let r = Json::Obj(fields);
    proof {
        assert(jfields(fv) =~= seq![("name"@, JVal::Str(name@))]);
    }
    (String::from_str("profiles.remove"), r)
}

/// Makes the named profile the active one.
pub fn profiles_use(name: &str) -> (r: (String, Json))
    ensures
        r.0@ == "profiles.use"@,
        r.1@ == JVal::Obj(seq![("name"@, JVal::Str(name@))]),
{
    let mut fields: Vec<(String, Json)> = Vec::new();
    push_str_field(&mut fields, "name", name);
    let ghost fv = fields@;
    let r = Json::Obj(fields);
    proof {
        assert(jfields(fv) =~= seq![("name"@, JVal::Str(name@))]);
    }
    (String::from_str("profiles.use"), r)
}

/// Tests the named profile's connection with the given password.
pub fn profiles_test(name: &str, password: &str) -> (r: (String, Json))
    ensures
        r.0@ == "profiles.test"@,
        r.1@ == JVal::Obj(
            seq![("name"@, JVal::Str(name@)), ("password"@, JVal::Str(password@))],
        ),
{
    let mut fields: Vec<(String, Json)> = Vec::new();
    push_str_field(&mut fields, "name", name);
    push_str_field(&mut fields, "password", password);
    let ghost fv = fields@;
    let r = Json::Obj(fields);
    proof {
        assert(jfields(fv) =~= seq![("name"@, JVal::Str(name@)), ("password"@, JVal::Str(password@))]);
    }
    (String::from_str("profiles.test"), r)
}

/// Asks which profile is active.
pub fn profiles_get_active() -> (r: (String, Json))
    ensures
        r.0@ == "profiles.getActive"@,
        r.1@ == JVal::Obj(Seq::empty()),
{
    (String::from_str("profiles.getActive"), empty_params())
}

/// Refreshes the schema snapshot, for the named profile when one is
/// given.
pub fn schema_refresh(password: &str, name: Option<String>) -> (r: (String, Json))
    ensures
        r.0@ == "schema.refresh"@,
        match name {
            Some(n) => r.1@ == JVal::Obj(
                seq![("password"@, JVal::Str(password@)), ("name"@, JVal::Str(n@))],
            ),
            None => r.1@ == JVal::Obj(seq![("password"@, JVal::Str(password@))]),
        },
{
    let mut fields: Vec<(String, Json)> = Vec::new();
    push_str_field(&mut fields, "password", password);
    match &name {
        Some(n) => {
            push_str_field(&mut fields, "name", n.as_str());
            let ghost fv = fields@;
            let r = Json::Obj(fields);
            proof {
                assert(jfields(fv) =~= seq![
                    ("password"@, JVal::Str(password@)),
                    ("name"@, JVal::Str(n@)),
                ]);
            }
            (String::from_str("schema.refresh"), r)
        },
        None => {
            let ghost fv = fields@;
            let r = Json::Obj(fields);
            proof {
                assert(jfields(fv) =~= seq![("password"@, JVal::Str(password@))]);
            }
            (String::from_str("schema.refresh"), r)
        },
    }
}

/// Searches the schema.
pub fn schema_search(query: &str) -> (r: (String, Json))
    ensures
        r.0@ == "schema.search"@,
        r.1@ == JVal::Obj(seq![("query"@, JVal::Str(query@))]),
{
    let mut fields: Vec<(String, Json)> = Vec::new();
    push_str_field(&mut fields, "query", query);
    let ghost fv = fields@;
    let r = Json::Obj(fields);
    proof {
        assert(jfields(fv) =~= seq![("query"@, JVal::Str(query@))]);
    }
    (String::from_str("schema.search"), r)
}

/// Asks for one table's detail, under the named schema when one is
/// given.
pub fn schema_table_detail(table: &str, schema: Option<String>) -> (r: (String, Json))
    ensures
        r.0@ == "schema.tableDetail"@,
        match schema {
            Some(s) => r.1@ == JVal::Obj(
                seq![("table"@, JVal::Str(table@)), ("schema"@, JVal::Str(s@))],
            ),
            None => r.1@ == JVal::Obj(seq![("table"@, JVal::Str(table@))]),
        },
{
    let mut fields: Vec<(String, Json)> = Vec::new();
    push_str_field(&mut fields, "table", table);
    match &schema {
        Some(s) => {
            push_str_field(&mut fields, "schema", s.as_str());
            let ghost fv = fields@;
            let r = Json::Obj(fields);
            proof {
                assert(jfields(fv) =~= seq![
                    ("table"@, JVal::Str(table@)),
                    ("schema"@, JVal::Str(s@)),
                ]);
            }
            (String::from_str("schema.tableDetail"), r)
        },
        None => {
            let ghost fv = fields@;
            let r = Json::Obj(fields);
            proof {
                assert(jfields(fv) =~= seq![("table"@, JVal::Str(table@))]);
            }
            (String::from_str("schema.tableDetail"), r)
        },
    }
}

/// Asks for the current schema snapshot.
pub fn schema_get_snapshot() -> (r: (String, Json))
    ensures
        r.0@ == "schema.getSnapshot"@,
        r.1@ == JVal::Obj(Seq::empty()),
{
    (String::from_str("schema.getSnapshot"), empty_params())
}

/// The question/mode/password envelope the two ask commands share.
fn ask_params(question: &str, mode: &str, password: &str) -> (r: Json)
    ensures
        r@ == JVal::Obj(
            seq![
                ("question"@, JVal::Str(question@)),
                ("mode"@, JVal::Str(mode@)),
                ("password"@, JVal::Str(password@)),
            ],
        ),
{
    let mut fields: Vec<(String, Json)> = Vec::new();
    push_str_field(&mut fields, "question", question);
    push_str_field(&mut fields, "mode", mode);
    push_str_field(&mut fields, "password", password);
    let ghost fv = fields@;
    let r = Json::Obj(fields);
    proof {
        assert(jfields(fv) =~= seq![
            ("question"@, JVal::Str(question@)),
            ("mode"@, JVal::Str(mode@)),
            ("password"@, JVal::Str(password@)),
        ]);
    }
    r
}

/// Plans an answer without running it.
pub fn ask_dry_run(question: &str, mode: &str, password: &str) -> (r: (String, Json))
    ensures
        r.0@ == "ask.dryRun"@,
        r.1@ == JVal::Obj(
            seq![
                ("question"@, JVal::Str(question@)),
                ("mode"@, JVal::Str(mode@)),
                ("password"@, JVal::Str(password@)),
            ],
        ),
{
    (String::from_str("ask.dryRun"), ask_params(question, mode, password))
}

/// Runs a question.
pub fn ask_run(question: &str, mode: &str, password: &str) -> (r: (String, Json))
    ensures
        r.0@ == "ask.run"@,
        r.1@ == JVal::Obj(
            seq![
                ("question"@, JVal::Str(question@)),
                ("mode"@, JVal::Str(mode@)),
                ("password"@, JVal::Str(password@)),
            ],
        ),
{
    (String::from_str("ask.run"), ask_params(question, mode, password))
}

/// The members a workspace SQL request carries: the statement, the
/// mode and the password always, then the optional action, policy and
/// profile name, in that order.
pub open spec fn workspace_sql_fields(
    sql: Seq<char>,
    mode: Seq<char>,
    action: Option<Seq<char>>,
    policy: Option<JVal>,
    password: Seq<char>,
    name: Option<Seq<char>>,
) -> Seq<(Seq<char>, JVal)> {
    let base = seq![
        ("sql"@, JVal::Str(sql)),
        ("mode"@, JVal::Str(mode)),
        ("password"@, JVal::Str(password)),
    ];
    let with_action = match action {
        Some(a) => base.push(("action"@, JVal::Str(a))),
        None => base,
    };
    let with_policy = match policy {
        Some(p) => with_action.push(("policy"@, p)),
        None => with_action,
    };
    match name {
        Some(n) => with_policy.push(("name"@, JVal::Str(n))),
        None => with_policy,
    }
}

/// Runs a SQL statement in the workspace.
pub fn workspace_sql(
    sql: &str,
    mode: &str,
    action: Option<String>,
    policy: Option<Json>,
    password: &str,
    name: Option<String>,
) -> (r: (String, Json))
    ensures
        r.0@ == "workspace.sql"@,
        r.1@ == JVal::Obj(workspace_sql_fields(
            sql@,
            mode@,
            match action {
                Some(a) => Some(a@),
                None => None,
            },
            match policy {
                Some(p) => Some(p@),
                None => None,
            },
            password@,
            match name {
                Some(n) => Some(n@),
                None => None,
            },
        )),
{
    let ghost aview = match &action {
        Some(a) => Some(a@),
        None => None,
    };
    let ghost pview = match &policy {
        Some(p) => Some(p@),
        None => None,
    };
    let ghost nview = match &name {
        Some(n) => Some(n@),
        None => None,
    };
    let mut fields: Vec<(String, Json)> = Vec::new();
    push_str_field(&mut fields, "sql", sql);
    push_str_field(&mut fields, "mode", mode);
    push_str_field(&mut fields, "password", password);
    proof {
        assert(jfields(fields@) =~= seq![
            ("sql"@, JVal::Str(sql@)),
            ("mode"@, JVal::Str(mode@)),
            ("password"@, JVal::Str(password@)),
        ]);
    }
    match action {
        Some(a) => {
            push_str_field(&mut fields, "action", a.as_str());
        },
        None => {},
    }
    match policy {
        Some(p) => {
            push_json_field(&mut fields, "policy", p);
        },
        None => {},
    }
    match name {
        Some(n) => {
            push_str_field(&mut fields, "name", n.as_str());
        },
        None => {},
    }
    let ghost fv = fields@;
    let r = Json::Obj(fields);
    proof {
        assert(jfields(fv) == workspace_sql_fields(sql@, mode@, aview, pview, password@, nview));
    }
    (String::from_str("workspace.sql"), r)
}

/// Lists past runs, at most `limit` of them when a limit is given.
pub fn history_list(limit: Option<u32>) -> (r: (String, Json))
    ensures
        r.0@ == "history.list"@,
        match limit {
            Some(l) => r.1@ == JVal::Obj(seq![("limit"@, JVal::Int(l as int))]),
            None => r.1@ == JVal::Obj(Seq::empty()),
        },
{
    match limit {
        Some(l) => {
            let mut fields: Vec<(String, Json)> = Vec::new();
            push_int_field(&mut fields, "limit", l as i64);
            let ghost fv = fields@;
            let r = Json::Obj(fields);
            proof {
                assert(jfields(fv) =~= seq![("limit"@, JVal::Int(l as int))]);
            }
            (String::from_str("history.list"), r)
        },
        None => (String::from_str("history.list"), empty_params()),
    }
}

/// Shows one past run.
pub fn history_show(id: &str) -> (r: (String, Json))
    ensures
        r.0@ == "history.show"@,
        r.1@ == JVal::Obj(seq![("id"@, JVal::Str(id@))]),
{
    let mut fields: Vec<(String, Json)> = Vec::new();
    push_str_field(&mut fields, "id", id);
    let ghost fv = fields@;
    let r = Json::Obj(fields);
    proof {
        assert(jfields(fv) =~= seq![("id"@, JVal::Str(id@))]);
    }
    (String::from_str("history.show"), r)
}

/// Exports one past run as markdown; the call must answer with text.
pub fn history_export_md(id: &str) -> (r: (String, Json))
    ensures
        r.0@ == "history.exportMd"@,
        r.1@ == JVal::Obj(seq![("id"@, JVal::Str(id@))]),
{
    let mut fields: Vec<(String, Json)> = Vec::new();
    push_str_field(&mut fields, "id", id);
    let ghost fv = fields@;
    let r = Json::Obj(fields);
    proof {
        assert(jfields(fv) =~= seq![("id"@, JVal::Str(id@))]);
    }
    (String::from_str("history.exportMd"), r)
}

/// Asks for the settings status.
pub fn settings_status() -> (r: (String, Json))
    ensures
        r.0@ == "settings.status"@,
        r.1@ == JVal::Obj(Seq::empty()),
{
    (String::from_str("settings.status"), empty_params())
}

/// Updates the named profile's power settings; the payload passes
/// through unchanged.
pub fn profile_update_power(name: &str, settings: Json) -> (r: (String, Json))
    ensures
        r.0@ == "profile.updatePower"@,
        r.1@ == JVal::Obj(
            seq![("name"@, JVal::Str(name@)), ("settings"@, settings@)],
        ),
{
    let ghost sview = settings@;
    let mut fields: Vec<(String, Json)> = Vec::new();
    push_str_field(&mut fields, "name", name);
    push_json_field(&mut fields, "settings", settings);
    let ghost fv = fields@;
    let r = Json::Obj(fields);
    proof {
        assert(jfields(fv) =~= seq![("name"@, JVal::Str(name@)), ("settings"@, sview)]);
    }
    (String::from_str("profile.updatePower"), r)
}

/// Reads the named profile's power settings.
pub fn profile_get_power(name: &str) -> (r: (String, Json))
    ensures
        r.0@ == "profile.getPower"@,
        r.1@ == JVal::Obj(seq![("name"@, JVal::Str(name@))]),
{
    let mut fields: Vec<(String, Json)> = Vec::new();
    push_str_field(&mut fields, "name", name);
    let ghost fv = fields@;
    let r = Json::Obj(fields);
    proof {
        assert(jfields(fv) =~= seq![("name"@, JVal::Str(name@))]);
    }
    (String::from_str("profile.getPower"), r)
}

/// The members a write request carries: the statement, its
/// parameters and the password always, then the optional profile
/// name.
pub open spec fn write_fields(
    sql: Seq<char>,
    params: JVal,
    password: Seq<char>,
    name: Option<Seq<char>>,
) -> Seq<(Seq<char>, JVal)> {
    let base = seq![
        ("sql"@, JVal::Str(sql)),
        ("params"@, params),
        ("password"@, JVal::Str(password)),
    ];
    match name {
        Some(n) => base.push(("name"@, JVal::Str(n))),
        None => base,
    }
}

/// The shared body of the two write commands.
fn write_params(sql: &str, params: Json, password: &str, name: Option<String>) -> (r: Json)
    ensures
        r@ == JVal::Obj(write_fields(
            sql@,
            params@,
            password@,
            match name {
                Some(n) => Some(n@),
                None => None,
            },
        )),
{
    let ghost pview = params@;
    let ghost nview = match &name {
        Some(n) => Some(n@),
        None => None,
    };
    let mut fields: Vec<(String, Json)> = Vec::new();
    push_str_field(&mut fields, "sql", sql);
    push_json_field(&mut fields, "params", params);
    push_str_field(&mut fields, "password", password);
    proof {
        assert(jfields(fields@) =~= seq![
            ("sql"@, JVal::Str(sql@)),
            ("params"@, pview),
            ("password"@, JVal::Str(password@)),
        ]);
    }
    match name {
        Some(n) => {
            push_str_field(&mut fields, "name", n.as_str());
        },
        None => {},
    }
    let ghost fv = fields@;
    let r = Json::Obj(fields);
    proof {
        assert(jfields(fv) == write_fields(sql@, pview, password@, nview));
    }
    r
}

/// Previews a write without executing it.
pub fn write_preview(sql: &str, params: Json, password: &str, name: Option<String>) -> (r: (String, Json))
    ensures
        r.0@ == "write.preview"@,
        r.1@ == JVal::Obj(write_fields(
            sql@,
            params@,
            password@,
            match name {
                Some(n) => Some(n@),
                None => None,
            },
        )),
{
    (String::from_str("write.preview"), write_params(sql, params, password, name))
}

/// Executes a write.
pub fn write_execute(sql: &str, params: Json, password: &str, name: Option<String>) -> (r: (String, Json))
    ensures
        r.0@ == "write.execute"@,
        r.1@ == JVal::Obj(write_fields(
            sql@,
            params@,
            password@,
            match name {
                Some(n) => Some(n@),
                None => None,
            },
        )),
{
    (String::from_str("write.execute"), write_params(sql, params, password, name))
}

/// The result of a call that must answer with text, as the markdown
/// export does: the text itself, or the fixed complaint.
pub fn string_result(v: Json) -> (r: Result<String, String>)
    ensures
        match v@ {
            JVal::Str(s) => (r matches Ok(t) && t@ == s),
            _ => (r matches Err(m) && m@ == "Expected string result"@),
        },
{
    match v {
        Json::Str(s) => Ok(s),
        _ => Err(String::from_str("Expected string result")),
    }
}

} // verus!
